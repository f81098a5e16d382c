//! The column namer: turns raw header strings into unique, identifier-safe
//! column names.
//!
//! Each header is normalized on its own (strip one trailing parenthesized
//! group, lowercase, trim, replace or delete punctuation, guard the first
//! character), then a left-to-right collision pass appends `_1`, `_2`, ...
//! until every accepted name is unique.

use vstd::prelude::*;
use crate::numbers::{dec_spec, u64_to_dec_chars, lemma_dec_spec_nonempty, lemma_dec_spec_injective};
use crate::text::{str_to_chars, chars_to_string, copy_range};

verus! {

// ---------------------------------------------------------------------------
// Character classes
// ---------------------------------------------------------------------------

/// The Unicode `White_Space` characters, written out.
pub open spec fn is_space_char(c: char) -> bool {
    let u = c as u32;
    u == 0x20 || (0x09 <= u && u <= 0x0d) || u == 0x85 || u == 0xa0 || u == 0x1680 || (0x2000 <= u
        && u <= 0x200a) || u == 0x2028 || u == 0x2029 || u == 0x202f || u == 0x205f || u == 0x3000
}

/// Characters deleted outright by normalization.
pub open spec fn is_delete_char(c: char) -> bool {
    c == '(' || c == ')' || c == '?' || c == ':' || c == '#'
}

/// Characters replaced by an underscore.
pub open spec fn is_underscore_char(c: char) -> bool {
    c == ' ' || c == '.' || c == '-' || c == '/' || c == ',' || c == '&'
}

pub open spec fn is_ascii_char(c: char) -> bool {
    (c as u32) < 128
}

pub open spec fn is_ascii_upper(c: char) -> bool {
    65 <= c as u32 && c as u32 <= 90
}

pub open spec fn is_ascii_lower_letter(c: char) -> bool {
    97 <= c as u32 && c as u32 <= 122
}

fn is_space(c: char) -> (r: bool)
    ensures
        r == is_space_char(c),
{
    let u = c as u32;
    u == 0x20 || (0x09 <= u && u <= 0x0d) || u == 0x85 || u == 0xa0 || u == 0x1680 || (0x2000 <= u
        && u <= 0x200a) || u == 0x2028 || u == 0x2029 || u == 0x202f || u == 0x205f || u == 0x3000
}

// ---------------------------------------------------------------------------
// Trusted facts about lowercasing and the alphabetic test
// ---------------------------------------------------------------------------

/// What `str::to_lowercase` returns, as a function of the characters alone.
pub uninterp spec fn lower_of(s: Seq<char>) -> Seq<char>;

/// What `char::is_alphabetic` returns for a given character.
pub uninterp spec fn is_alpha(c: char) -> bool;

/// How an ASCII character is lowercased: `A`..`Z` move down by 32, the rest
/// stay themselves.
pub open spec fn lower_rel(c: char, d: char) -> bool {
    if is_ascii_upper(c) {
        d as u32 == c as u32 + 32
    } else {
        d == c
    }
}

/// Relies on str::to_lowercase: the result depends on the input characters
/// alone, an all-ASCII input is lowered character by character as ASCII case
/// mapping says, and no lowercase mapping ever yields an ASCII uppercase
/// letter.
#[verifier::external_body]
fn lower_chars(v: &Vec<char>) -> (r: Vec<char>)
    ensures
        r@ == lower_of(v@),
        (forall|i: int| 0 <= i < v@.len() ==> is_ascii_char(#[trigger] v@[i])) ==> (r@.len()
            == v@.len() && forall|i: int| 0 <= i < v@.len() ==> lower_rel(v@[i], #[trigger] r@[i])),
        forall|i: int| 0 <= i < r@.len() ==> !is_ascii_upper(#[trigger] r@[i]),
{
    let s: String = v.iter().collect();
    s.to_lowercase().chars().collect()
}

/// Relies on char::is_alphabetic: every ASCII letter is alphabetic and no
/// other ASCII character is.
#[verifier::external_body]
fn is_alphabetic_char(c: char) -> (r: bool)
    ensures
        r == is_alpha(c),
        is_ascii_upper(c) || is_ascii_lower_letter(c) ==> r,
        is_ascii_char(c) && !is_ascii_upper(c) && !is_ascii_lower_letter(c) ==> !r,
{
    c.is_alphabetic()
}

/// Lowercases characters as the namer's lowercasing step does. This exposes
/// the trusted facts about `lower_of` to callers and proofs outside this
/// module.
pub fn lowercase_chars(v: &Vec<char>) -> (r: Vec<char>)
    ensures
        r@ == lower_of(v@),
        (forall|i: int| 0 <= i < v@.len() ==> is_ascii_char(#[trigger] v@[i])) ==> (r@.len()
            == v@.len() && forall|i: int| 0 <= i < v@.len() ==> lower_rel(v@[i], #[trigger] r@[i])),
        forall|i: int| 0 <= i < r@.len() ==> !is_ascii_upper(#[trigger] r@[i]),
{
    lower_chars(v)
}

/// Whether a character is alphabetic, as the namer's first-character guard
/// judges it. This exposes the trusted facts about `is_alpha` to callers and
/// proofs outside this module.
pub fn alphabetic_char(c: char) -> (r: bool)
    ensures
        r == is_alpha(c),
        is_ascii_upper(c) || is_ascii_lower_letter(c) ==> r,
        is_ascii_char(c) && !is_ascii_upper(c) && !is_ascii_lower_letter(c) ==> !r,
{
    is_alphabetic_char(c)
}

// ---------------------------------------------------------------------------
// Stripping a single trailing parenthesized group
// ---------------------------------------------------------------------------

/// Index of the last `(` in the sequence, or -1 if there is none.
pub open spec fn last_open_paren(s: Seq<char>) -> int
    decreases s.len(),
{
    if s.len() == 0 {
        -1
    } else if s.last() == '(' {
        s.len() - 1
    } else {
        last_open_paren(s.drop_last())
    }
}

/// Removes the last parenthesized group when it closes the string; otherwise
/// the string is unchanged.
pub open spec fn strip_paren_group(s: Seq<char>) -> Seq<char> {
    if s.len() > 0 && s.last() == ')' && last_open_paren(s) >= 0 {
        s.take(last_open_paren(s))
    } else {
        s
    }
}

fn strip_trailing_group(v: &Vec<char>) -> (r: Vec<char>)
    ensures
        r@ == strip_paren_group(v@),
{
    let n = v.len();
    if n == 0 || v[n - 1] != ')' {
        let r = copy_range(v, 0, n);
        assert(r@ =~= v@);
        return r;
    }
    let mut i: usize = n;
    assert(v@.take(n as int) =~= v@);
    while i > 0
        invariant
            i <= n,
            n == v@.len(),
            n > 0,
            v@[n - 1] == ')',
            last_open_paren(v@) == last_open_paren(v@.take(i as int)),
            forall|k: int| i <= k < n ==> v@[k] != '(',
        decreases i,
    {
        if v[i - 1] == '(' {
            proof {
                assert(v@.take(i as int).last() == v@[i - 1]);
                assert(last_open_paren(v@.take(i as int)) == i - 1);
            }
            let r = copy_range(v, 0, i - 1);
            assert(r@ =~= v@.take(last_open_paren(v@)));
            return r;
        }
        proof {
            assert(v@.take(i as int).last() == v@[i - 1]);
            assert(v@.take(i as int).drop_last() =~= v@.take(i - 1));
        }
        i -= 1;
    }
    proof {
        assert(v@.take(0) =~= Seq::<char>::empty());
        assert(last_open_paren(v@) == -1);
    }
    let r = copy_range(v, 0, n);
    assert(r@ =~= v@);
    r
}

// ---------------------------------------------------------------------------
// Trimming surrounding whitespace
// ---------------------------------------------------------------------------

pub open spec fn trim_start_spec(s: Seq<char>) -> Seq<char>
    decreases s.len(),
{
    if s.len() > 0 && is_space_char(s[0]) {
        trim_start_spec(s.drop_first())
    } else {
        s
    }
}

pub open spec fn trim_end_spec(s: Seq<char>) -> Seq<char>
    decreases s.len(),
{
    if s.len() > 0 && is_space_char(s.last()) {
        trim_end_spec(s.drop_last())
    } else {
        s
    }
}

/// The string with surrounding whitespace removed.
pub open spec fn trim_spec(s: Seq<char>) -> Seq<char> {
    trim_end_spec(trim_start_spec(s))
}

fn trim_chars(v: &Vec<char>) -> (r: Vec<char>)
    ensures
        r@ == trim_spec(v@),
{
    let n = v.len();
    let mut start: usize = 0;
    assert(v@.skip(0) =~= v@);
    loop
        invariant
            start <= n,
            n == v@.len(),
            trim_start_spec(v@) == trim_start_spec(v@.skip(start as int)),
        ensures
            start <= n,
            trim_start_spec(v@) == v@.skip(start as int),
        decreases n - start,
    {
        if start < n && is_space(v[start]) {
            proof {
                assert(v@.skip(start as int)[0] == v@[start as int]);
                assert(v@.skip(start as int).drop_first() =~= v@.skip(start + 1));
            }
            start += 1;
        } else {
            proof {
                if start < n {
                    assert(v@.skip(start as int)[0] == v@[start as int]);
                } else {
                    assert(v@.skip(start as int) =~= Seq::<char>::empty());
                }
            }
            break;
        }
    }
    let ghost t = v@.skip(start as int);
    let mut end: usize = n;
    assert(t.take(n - start) =~= t);
    loop
        invariant
            start <= end <= n,
            n == v@.len(),
            t == v@.skip(start as int),
            trim_end_spec(t) == trim_end_spec(t.take(end - start)),
        ensures
            start <= end <= n,
            trim_end_spec(t) == t.take(end - start),
        decreases end,
    {
        if end > start && is_space(v[end - 1]) {
            proof {
                assert(t.take(end - start).last() == v@[end - 1]);
                assert(t.take(end - start).drop_last() =~= t.take(end - 1 - start));
            }
            end -= 1;
        } else {
            proof {
                if end > start {
                    assert(t.take(end - start).last() == v@[end - 1]);
                } else {
                    assert(t.take(end - start) =~= Seq::<char>::empty());
                }
            }
            break;
        }
    }
    let r = copy_range(v, start, end);
    assert(r@ =~= t.take(end - start));
    r
}

// ---------------------------------------------------------------------------
// Character replacement
// ---------------------------------------------------------------------------

/// What one character contributes after replacement.
pub open spec fn replace_map(c: char) -> Seq<char> {
    if is_delete_char(c) {
        seq![]
    } else if is_underscore_char(c) {
        seq!['_']
    } else {
        seq![c]
    }
}

/// The string with punctuation deleted or replaced by underscores.
pub open spec fn replace_chars(s: Seq<char>) -> Seq<char>
    decreases s.len(),
{
    if s.len() == 0 {
        seq![]
    } else {
        replace_map(s[0]) + replace_chars(s.drop_first())
    }
}

proof fn lemma_replace_chars_snoc(s: Seq<char>, c: char)
    ensures
        replace_chars(s.push(c)) == replace_chars(s) + replace_map(c),
    decreases s.len(),
{
    if s.len() == 0 {
        assert(s.push(c)[0] == c);
        assert(s.push(c).drop_first() =~= Seq::<char>::empty());
        assert(replace_chars(s.push(c)) == replace_map(c) + replace_chars(
            Seq::<char>::empty(),
        ));
        assert(replace_chars(s.push(c)) =~= replace_chars(s) + replace_map(c));
    } else {
        assert(s.push(c)[0] == s[0]);
        assert(s.push(c).drop_first() =~= s.drop_first().push(c));
        lemma_replace_chars_snoc(s.drop_first(), c);
        assert(replace_chars(s.push(c)) == replace_map(s[0]) + replace_chars(
            s.drop_first().push(c),
        ));
        assert(replace_chars(s.push(c)) =~= replace_chars(s) + replace_map(c));
    }
}

proof fn lemma_replace_chars_identity(s: Seq<char>)
    requires
        forall|i: int|
            0 <= i < s.len() ==> !is_delete_char(#[trigger] s[i]) && !is_underscore_char(s[i]),
    ensures
        replace_chars(s) == s,
    decreases s.len(),
{
    if s.len() > 0 {
        lemma_replace_chars_identity(s.drop_first());
        assert(replace_chars(s) =~= s);
    }
}

fn replace_chars_exec(v: &Vec<char>) -> (r: Vec<char>)
    ensures
        r@ == replace_chars(v@),
{
    let n = v.len();
    let mut r: Vec<char> = Vec::new();
    for i in 0..n
        invariant
            n == v@.len(),
            r@ =~= replace_chars(v@.take(i as int)),
    {
        let c = v[i];
        if c == '(' || c == ')' || c == '?' || c == ':' || c == '#' {
            // deleted
        } else if c == ' ' || c == '.' || c == '-' || c == '/' || c == ',' || c == '&' {
            r.push('_');
        } else {
            r.push(c);
        }
        proof {
            assert(v@.take(i + 1) =~= v@.take(i as int).push(v@[i as int]));
            lemma_replace_chars_snoc(v@.take(i as int), v@[i as int]);
        }
    }
    assert(v@.take(n as int) =~= v@);
    r
}

// ---------------------------------------------------------------------------
// Normalization of one header
// ---------------------------------------------------------------------------

/// The normalized form of one raw header: strip a trailing parenthesized
/// group, lowercase, trim, replace punctuation, and guard the first character
/// with `c_` when a nonempty result does not start with an alphabetic
/// character.
pub open spec fn normalize_spec(s: Seq<char>) -> Seq<char> {
    let base = replace_chars(trim_spec(lower_of(strip_paren_group(s))));
    if base.len() == 0 {
        base
    } else if is_alpha(base[0]) {
        base
    } else {
        seq!['c', '_'] + base
    }
}

/// A character that normalization maps to itself (ASCII, not uppercase, not
/// deleted, not replaced, not whitespace).
pub open spec fn norm_fixed_char(c: char) -> bool {
    is_ascii_char(c) && !is_ascii_upper(c) && !is_delete_char(c) && !is_underscore_char(c)
        && !is_space_char(c)
}

/// A name already in the normalized ASCII form the namer itself produces:
/// empty, or made of fixed characters and opening with an ASCII lowercase
/// letter.
pub open spec fn norm_ascii_fixed(s: Seq<char>) -> bool {
    (forall|i: int| 0 <= i < s.len() ==> norm_fixed_char(#[trigger] s[i])) && (s.len() == 0
        || is_ascii_lower_letter(s[0]))
}

proof fn lemma_trim_start_no_upper(s: Seq<char>)
    requires
        forall|i: int| 0 <= i < s.len() ==> !is_ascii_upper(#[trigger] s[i]),
    ensures
        forall|i: int|
            0 <= i < trim_start_spec(s).len() ==> !is_ascii_upper(#[trigger] trim_start_spec(s)[i]),
    decreases s.len(),
{
    if s.len() > 0 && is_space_char(s[0]) {
        assert(forall|i: int|
            0 <= i < s.drop_first().len() ==> !is_ascii_upper(#[trigger] s.drop_first()[i]));
        lemma_trim_start_no_upper(s.drop_first());
        assert(trim_start_spec(s) == trim_start_spec(s.drop_first()));
    } else {
        assert(trim_start_spec(s) == s);
    }
}

proof fn lemma_trim_end_no_upper(s: Seq<char>)
    requires
        forall|i: int| 0 <= i < s.len() ==> !is_ascii_upper(#[trigger] s[i]),
    ensures
        forall|i: int|
            0 <= i < trim_end_spec(s).len() ==> !is_ascii_upper(#[trigger] trim_end_spec(s)[i]),
    decreases s.len(),
{
    if s.len() > 0 && is_space_char(s.last()) {
        assert(forall|i: int|
            0 <= i < s.drop_last().len() ==> !is_ascii_upper(#[trigger] s.drop_last()[i]));
        lemma_trim_end_no_upper(s.drop_last());
        assert(trim_end_spec(s) == trim_end_spec(s.drop_last()));
    } else {
        assert(trim_end_spec(s) == s);
    }
}

proof fn lemma_replace_chars_no_upper(s: Seq<char>)
    requires
        forall|i: int| 0 <= i < s.len() ==> !is_ascii_upper(#[trigger] s[i]),
    ensures
        forall|i: int|
            0 <= i < replace_chars(s).len() ==> !is_ascii_upper(#[trigger] replace_chars(s)[i]),
    decreases s.len(),
{
    if s.len() > 0 {
        assert(forall|i: int|
            0 <= i < s.drop_first().len() ==> !is_ascii_upper(#[trigger] s.drop_first()[i]));
        lemma_replace_chars_no_upper(s.drop_first());
        let head = replace_map(s[0]);
        assert(!is_ascii_upper('_'));
        assert forall|i: int|
            0 <= i < replace_chars(s).len() implies !is_ascii_upper(
            #[trigger] replace_chars(s)[i],
        ) by {
            if i < head.len() {
                assert(replace_chars(s)[i] == head[i]);
            } else {
                assert(replace_chars(s)[i] == replace_chars(s.drop_first())[i - head.len()]);
            }
        }
    }
}

/// Normalizes one raw header string.
///
/// A name already in normalized ASCII form is left unchanged, so re-loading
/// a header that the namer itself wrote reproduces the same name.
pub fn normalize_col(col: &str) -> (r: String)
    ensures
        r@ == normalize_spec(col@),
        norm_ascii_fixed(col@) ==> r@ == col@,
        forall|i: int| 0 <= i < r@.len() ==> !is_ascii_upper(#[trigger] r@[i]),
{
    let chars = str_to_chars(col);
    let stripped = strip_trailing_group(&chars);
    proof {
        if norm_ascii_fixed(col@) && col@.len() > 0 {
            assert(col@.last() != ')');
        }
    }
    let lowered = lower_chars(&stripped);
    let trimmed = trim_chars(&lowered);
    let base = replace_chars_exec(&trimmed);
    proof {
        lemma_trim_start_no_upper(lowered@);
        lemma_trim_end_no_upper(trim_start_spec(lowered@));
        lemma_replace_chars_no_upper(trimmed@);
        assert(forall|i: int| 0 <= i < base@.len() ==> !is_ascii_upper(#[trigger] base@[i]));
    }
    proof {
        if norm_ascii_fixed(col@) {
            assert(stripped@ == col@);
            assert(lowered@ =~= col@);
            if col@.len() > 0 {
                assert(!is_space_char(col@[0]));
                assert(!is_space_char(col@.last()));
            }
            assert(trim_start_spec(lowered@) == lowered@);
            assert(trim_end_spec(lowered@) == lowered@);
            lemma_replace_chars_identity(col@);
            assert(base@ == col@);
        }
    }
    if base.len() == 0 {
        let r = chars_to_string(&base);
        assert(r@ == normalize_spec(col@));
        return r;
    }
    if is_alphabetic_char(base[0]) {
        let r = chars_to_string(&base);
        assert(r@ == normalize_spec(col@));
        return r;
    }
    let mut guarded: Vec<char> = Vec::new();
    guarded.push('c');
    guarded.push('_');
    let n = base.len();
    for j in 0..n
        invariant
            n == base@.len(),
            guarded@ =~= seq!['c', '_'] + base@.take(j as int),
    {
        guarded.push(base[j]);
        assert(guarded@ =~= seq!['c', '_'] + base@.take(j + 1));
    }
    assert(guarded@ =~= seq!['c', '_'] + base@);
    let r = chars_to_string(&guarded);
    assert(r@ == normalize_spec(col@));
    proof {
        assert forall|i: int| 0 <= i < r@.len() implies !is_ascii_upper(#[trigger] r@[i]) by {
            if i >= 2 {
                assert(r@[i] == base@[i - 2]);
            }
        }
    }
    r
}

// ---------------------------------------------------------------------------
// Collision pass
// ---------------------------------------------------------------------------

/// The i-th candidate for a normalized name: the name itself, then
/// `name_1`, `name_2`, ...
pub open spec fn candidate(orig: Seq<char>, i: nat) -> Seq<char> {
    if i == 0 {
        orig
    } else {
        orig + seq!['_'] + dec_spec(i)
    }
}

/// The first candidate not yet accepted, trying indices from `i` up.
pub open spec fn resolve_from(acc: Seq<Seq<char>>, orig: Seq<char>, i: nat) -> Seq<char>
    decreases acc.len() + 2 - i,
{
    if i > acc.len() + 1 {
        // never reached: among the first acc.len() + 1 candidates one is free
        candidate(orig, i)
    } else if !acc.contains(candidate(orig, i)) {
        candidate(orig, i)
    } else {
        resolve_from(acc, orig, i + 1)
    }
}

/// The name accepted for `orig` against the already-accepted list `acc`.
pub open spec fn resolved_name(acc: Seq<Seq<char>>, orig: Seq<char>) -> Seq<char> {
    resolve_from(acc, orig, 0)
}

/// The collision pass over a whole list of normalized names.
pub open spec fn dedup_spec(cols: Seq<Seq<char>>) -> Seq<Seq<char>>
    decreases cols.len(),
{
    if cols.len() == 0 {
        Seq::empty()
    } else {
        let prev = dedup_spec(cols.drop_last());
        prev.push(resolved_name(prev, cols.last()))
    }
}

proof fn lemma_candidate_injective(orig: Seq<char>, i: nat, j: nat)
    requires
        i != j,
    ensures
        candidate(orig, i) != candidate(orig, j),
{
    if i == 0 {
        lemma_dec_spec_nonempty(j);
        assert(candidate(orig, j).len() > orig.len());
    } else if j == 0 {
        lemma_dec_spec_nonempty(i);
        assert(candidate(orig, i).len() > orig.len());
    } else if candidate(orig, i) == candidate(orig, j) {
        assert(candidate(orig, i).skip(orig.len() as int + 1) =~= dec_spec(i));
        assert(candidate(orig, j).skip(orig.len() as int + 1) =~= dec_spec(j));
        lemma_dec_spec_injective(i, j);
    }
}

/// If the first k candidates are all already accepted, there are at least k
/// accepted names.
proof fn lemma_contained_candidates_bound(acc: Seq<Seq<char>>, orig: Seq<char>, k: nat)
    requires
        forall|j: nat| j < k ==> acc.contains(#[trigger] candidate(orig, j)),
    ensures
        k <= acc.len(),
{
    broadcast use vstd::set::group_set_axioms;
    broadcast use vstd::seq_lib::seq_to_set_is_finite;

    if k > acc.len() {
        let cands = Seq::new(k, |i: int| candidate(orig, i as nat));
        assert(cands.no_duplicates()) by {
            assert forall|i: int, j: int| 0 <= i < j < k implies cands[i] != cands[j] by {
                lemma_candidate_injective(orig, i as nat, j as nat);
            }
        }
        cands.unique_seq_to_set();
        assert(cands.to_set().subset_of(acc.to_set())) by {
            assert forall|x: Seq<char>| cands.to_set().contains(x) implies acc.to_set().contains(
                x,
            ) by {
                let i = choose|i: int| 0 <= i < cands.len() && cands[i] == x;
                assert(acc.contains(candidate(orig, i as nat)));
            }
        }
        acc.lemma_cardinality_of_set();
        vstd::set_lib::lemma_len_subset(cands.to_set(), acc.to_set());
        assert(false);
    }
}

proof fn lemma_resolve_from_not_contained(acc: Seq<Seq<char>>, orig: Seq<char>, i: nat)
    requires
        forall|j: nat| j < i ==> acc.contains(#[trigger] candidate(orig, j)),
    ensures
        !acc.contains(resolve_from(acc, orig, i)),
    decreases acc.len() + 2 - i,
{
    lemma_contained_candidates_bound(acc, orig, i);
    if acc.contains(candidate(orig, i)) {
        assert(forall|j: nat| j < i + 1 ==> acc.contains(#[trigger] candidate(orig, j)));
        lemma_resolve_from_not_contained(acc, orig, i + 1);
    }
}

/// The accepted name never collides with the names accepted before it.
pub proof fn lemma_resolved_name_not_contained(acc: Seq<Seq<char>>, orig: Seq<char>)
    ensures
        !acc.contains(resolved_name(acc, orig)),
{
    lemma_resolve_from_not_contained(acc, orig, 0);
}

/// Law: the collision pass keeps one name per input and the names it accepts
/// are pairwise distinct.
pub proof fn lemma_dedup_unique(cols: Seq<Seq<char>>)
    ensures
        dedup_spec(cols).len() == cols.len(),
        forall|i: int, j: int|
            0 <= i < j < cols.len() ==> dedup_spec(cols)[i] != dedup_spec(cols)[j],
    decreases cols.len(),
{
    if cols.len() > 0 {
        let prev = dedup_spec(cols.drop_last());
        lemma_dedup_unique(cols.drop_last());
        lemma_resolved_name_not_contained(prev, cols.last());
        assert forall|i: int, j: int|
            0 <= i < j < cols.len() implies dedup_spec(cols)[i] != dedup_spec(cols)[j] by {
            if j < cols.len() - 1 {
                assert(dedup_spec(cols)[i] == prev[i]);
                assert(dedup_spec(cols)[j] == prev[j]);
            } else {
                assert(dedup_spec(cols)[i] == prev[i]);
                assert(prev.contains(prev[i]));
            }
        }
    }
}

/// Law: names that are already pairwise distinct pass the collision pass
/// unchanged.
pub proof fn lemma_dedup_distinct_identity(cols: Seq<Seq<char>>)
    requires
        forall|i: int, j: int| 0 <= i < j < cols.len() ==> cols[i] != cols[j],
    ensures
        dedup_spec(cols) == cols,
    decreases cols.len(),
{
    if cols.len() > 0 {
        let rest = cols.drop_last();
        lemma_dedup_distinct_identity(rest);
        assert(!rest.contains(cols.last())) by {
            if rest.contains(cols.last()) {
                let i = choose|i: int| 0 <= i < rest.len() && rest[i] == cols.last();
                assert(cols[i] == cols[cols.len() - 1]);
            }
        }
        assert(resolved_name(rest, cols.last()) == cols.last());
        assert(dedup_spec(cols) =~= cols);
    }
}

/// Law: the collision pass is idempotent; run on its own output it changes
/// nothing.
pub proof fn lemma_dedup_idempotent(cols: Seq<Seq<char>>)
    ensures
        dedup_spec(dedup_spec(cols)) == dedup_spec(cols),
{
    lemma_dedup_unique(cols);
    lemma_dedup_distinct_identity(dedup_spec(cols));
}

// ---------------------------------------------------------------------------
// Executable collision pass
// ---------------------------------------------------------------------------

fn contains_string(v: &Vec<String>, x: &String) -> (r: bool)
    ensures
        r == v@.map_values(|s: String| s@).contains(x@),
{
    let ghost views = v@.map_values(|s: String| s@);
    let n = v.len();
    for i in 0..n
        invariant
            n == v@.len(),
            views == v@.map_values(|s: String| s@),
            forall|k: int| 0 <= k < i ==> views[k] != x@,
    {
        if v[i].eq(x) {
            assert(views[i as int] == x@);
            return true;
        }
    }
    assert(!views.contains(x@)) by {
        if views.contains(x@) {
            let i = choose|i: int| 0 <= i < views.len() && views[i] == x@;
        }
    }
    false
}

fn make_candidate(orig: &String, i: u64) -> (r: String)
    requires
        i >= 1,
    ensures
        r@ == candidate(orig@, i as nat),
{
    let mut r = orig.clone();
    crate::text::push_char(&mut r, '_');
    let digits = u64_to_dec_chars(i);
    crate::text::append_chars(&mut r, &digits);
    assert(r@ =~= candidate(orig@, i as nat));
    r
}

/// The collision pass: accepts names left to right, appending `_N` to a
/// candidate that collides with an already-accepted name.
pub fn dedup_cols(cols: &Vec<String>) -> (r: Vec<String>)
    ensures
        r@.map_values(|s: String| s@) == dedup_spec(cols@.map_values(|s: String| s@)),
{
    let ghost all = cols@.map_values(|s: String| s@);
    let mut out: Vec<String> = Vec::new();
    let n = cols.len();
    for idx in 0..n
        invariant
            n == cols@.len(),
            all == cols@.map_values(|s: String| s@),
            out@.map_values(|s: String| s@) =~= dedup_spec(all.take(idx as int)),
    {
        let ghost acc = out@.map_values(|s: String| s@);
        let orig = &cols[idx];
        let mut i: u64 = 0;
        let mut cand: String = orig.clone();
        assert(cand@ == candidate(orig@, 0));
        loop
            invariant
                i <= acc.len(),
                acc == out@.map_values(|s: String| s@),
                cand@ == candidate(orig@, i as nat),
                resolve_from(acc, orig@, 0) == resolve_from(acc, orig@, i as nat),
                forall|j: nat| j < i ==> acc.contains(#[trigger] candidate(orig@, j)),
            ensures
                cand@ == resolved_name(acc, orig@),
            decreases acc.len() + 2 - i,
        {
            if !contains_string(&out, &cand) {
                proof {
                    assert(resolve_from(acc, orig@, i as nat) == candidate(orig@, i as nat));
                }
                break;
            }
            proof {
                assert(forall|j: nat|
                    j < i + 1 ==> acc.contains(#[trigger] candidate(orig@, j)));
                lemma_contained_candidates_bound(acc, orig@, (i + 1) as nat);
            }
            let out_len = out.len();
            proof {
                assert(acc.len() == out_len as nat);
            }
            i = i + 1;
            cand = make_candidate(orig, i);
        }
        assert(cand@ == resolved_name(acc, orig@));
        out.push(cand);
        proof {
            assert(all.take(idx + 1).drop_last() =~= all.take(idx as int));
            assert(all.take(idx + 1).last() == all[idx as int]);
            assert(out@.map_values(|s: String| s@) =~= dedup_spec(all.take(idx + 1)));
        }
    }
    assert(all.take(n as int) =~= all);
    out
}

/// The whole column namer: normalize every raw header, then make the result
/// unique with the collision pass.
pub fn normalize_headers(raw: &Vec<String>) -> (r: Vec<String>)
    ensures
        r@.map_values(|s: String| s@) == normalized_header_spec(
            raw@.map_values(|s: String| s@),
        ),
{
    let ghost views = raw@.map_values(|s: String| s@);
    let mut normed: Vec<String> = Vec::new();
    let n = raw.len();
    for i in 0..n
        invariant
            n == raw@.len(),
            views == raw@.map_values(|s: String| s@),
            normed@.map_values(|s: String| s@) =~= views.take(i as int).map_values(
                |s: Seq<char>| normalize_spec(s),
            ),
    {
        normed.push(normalize_col(raw[i].as_str()));
        proof {
            let f = |s: Seq<char>| normalize_spec(s);
            assert(views.take(i + 1) =~= views.take(i as int).push(views[i as int]));
            assert(views.take(i + 1).map_values(f) =~= views.take(i as int).map_values(f).push(
                f(views[i as int]),
            ));
            assert(normed@.map_values(|s: String| s@) =~= views.take(i + 1).map_values(f));
        }
    }
    assert(views.take(n as int) =~= views);
    dedup_cols(&normed)
}

/// What the column namer produces for a raw header list.
pub open spec fn normalized_header_spec(h: Seq<Seq<char>>) -> Seq<Seq<char>> {
    dedup_spec(h.map_values(|s: Seq<char>| normalize_spec(s)))
}

} // verus!
