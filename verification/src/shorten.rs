//! The definition-shortening heuristic: a definition of the shape
//! `"X (Y)"` loses its trailing parenthetical when the parenthetical is
//! long (at least `PAREN_DROP_LEN` characters); short parentheticals are
//! grammatical markers and stay.
//!
//! The parenthetical is the last `" ("` of the line paired with a `")"`
//! that ends it, and a definition holding a line break is never changed,
//! matching a line-anchored match over single-line text.

use vstd::prelude::*;

verus! {

/// A parenthetical of this length or more is dropped.
pub const PAREN_DROP_LEN: usize = 15;

/// Whether some character of `s` is a line break.
pub open spec fn has_newline(s: Seq<char>) -> bool {
    exists|k: int| 0 <= k < s.len() && s[k] == '\n'
}

/// Whether position `p` can open the trailing parenthetical: a space,
/// an opening parenthesis, and room for the closing one.
pub open spec fn split_pos_ok(s: Seq<char>, p: int) -> bool {
    &&& 0 <= p
    &&& p + 2 < s.len()
    &&& s[p] == ' '
    &&& s[p + 1] == '('
}

/// The last position at or before `q` that can open the parenthetical.
pub open spec fn last_split_from(s: Seq<char>, q: int) -> Option<int>
    decreases q + 1,
{
    if q < 0 {
        Option::None
    } else if split_pos_ok(s, q) {
        Option::Some(q)
    } else {
        last_split_from(s, q - 1)
    }
}

/// Whether the heuristic changes `s`: a single line ending in `)` whose
/// last `" ("` opens a parenthetical of at least `PAREN_DROP_LEN`
/// characters.
pub open spec fn spec_shortenable(s: Seq<char>) -> bool {
    &&& s.len() >= 3
    &&& s[s.len() - 1] == ')'
    &&& !has_newline(s)
    &&& match last_split_from(s, s.len() - 3) {
        Option::Some(p) => s.len() - 1 - (p + 2) >= PAREN_DROP_LEN,
        Option::None => false,
    }
}

/// What the heuristic returns: the part before the last `" ("` when
/// `spec_shortenable` holds, the input unchanged otherwise.
pub open spec fn spec_shorten(s: Seq<char>) -> Seq<char> {
    if spec_shortenable(s) {
        match last_split_from(s, s.len() - 3) {
            Option::Some(p) => s.take(p),
            Option::None => s,
        }
    } else {
        s
    }
}

/// Applies the shortening heuristic to one definition line.
pub fn shorten_meaning(meaning: String) -> (r: String)
    ensures
        r@ == spec_shorten(meaning@),
{
    let s = meaning.as_str();
    assert(s@ == meaning@);
    let len = s.unicode_len();
    if len < 3 {
        return meaning;
    }
    if s.get_char(len - 1) != ')' {
        return meaning;
    }
    let mut k: usize = 0;
    while k < len
        invariant
            s@ == meaning@,
            len == s@.len(),
            k <= len,
            forall|j: int| 0 <= j < k ==> s@[j] != '\n',
        decreases len - k,
    {
        if s.get_char(k) == '\n' {
            assert(has_newline(s@));
            assert(!spec_shortenable(meaning@));
            return meaning;
        }
        k += 1;
    }
    assert(!has_newline(s@));
    // Scan for the last " (" that still leaves room for the ")".
    let mut qq: usize = len - 2;
    while qq > 0
        invariant
            s@ == meaning@,
            len == s@.len(),
            len >= 3,
            s@[len - 1] == ')',
            !has_newline(s@),
            qq <= len - 2,
            last_split_from(s@, len - 3) == last_split_from(s@, qq as int - 1),
        decreases qq,
    {
        let q = qq - 1;
        if s.get_char(q) == ' ' && s.get_char(q + 1) == '(' {
            assert(split_pos_ok(s@, q as int));
            assert(last_split_from(s@, q as int) == Option::Some(q as int));
            if len - 1 - (q + 2) >= PAREN_DROP_LEN {
                assert(spec_shortenable(meaning@));
                let r = String::from_str(s.substring_char(0, q));
                proof {
                    assert(r@ =~= spec_shorten(meaning@));
                }
                return r;
            } else {
                assert(!spec_shortenable(meaning@));
                return meaning;
            }
        }
        assert(!split_pos_ok(s@, q as int));
        assert(last_split_from(s@, q as int) == last_split_from(s@, q as int - 1));
        qq = q;
    }
    assert(last_split_from(s@, len - 3) is None);
    assert(!spec_shortenable(meaning@));
    meaning
}

/// Whether `s` holds a `" ("` pair anywhere.
pub open spec fn has_split_pair(s: Seq<char>) -> bool {
    exists|o: int| 0 <= o < s.len() - 1 && s[o] == ' ' && #[trigger] s[o + 1] == '('
}

proof fn lemma_no_split_none(s: Seq<char>, q: int)
    requires
        forall|p: int| !split_pos_ok(s, p),
    ensures
        last_split_from(s, q) is None,
    decreases q + 1,
{
    if q >= 0 {
        lemma_no_split_none(s, q - 1);
    }
}

proof fn lemma_last_split_above(s: Seq<char>, q: int, p0: int)
    requires
        split_pos_ok(s, p0),
        p0 <= q,
        forall|t: int| p0 < t <= q ==> !split_pos_ok(s, t),
    ensures
        last_split_from(s, q) == Option::Some(p0),
    decreases q - p0,
{
    if q > p0 {
        lemma_last_split_above(s, q - 1, p0);
    }
}

/// A single line that shows no parenthetical — it does not end in a
/// closing parenthesis, or holds no `" ("` at all — is returned
/// unchanged.
pub proof fn lemma_shorten_no_parenthetical(s: Seq<char>)
    requires
        s.len() > 0 ==> s[s.len() - 1] != ')' || !has_split_pair(s),
    ensures
        spec_shorten(s) == s,
{
    if s.len() >= 3 && s[s.len() - 1] == ')' {
        assert forall|p: int| !split_pos_ok(s, p) by {
            if 0 <= p && p + 2 < s.len() && s[p] == ' ' && s[p + 1] == '(' {
                assert(has_split_pair(s));
            }
        }
        lemma_no_split_none(s, s.len() - 3);
    }
}

/// The shortening law on an input of the shape `"X (Y)"`, where the
/// parenthetical `Y` opens no nested parenthetical of its own and neither
/// part holds a line break: a `Y` of at least `PAREN_DROP_LEN` characters
/// is dropped, leaving exactly `X`, and a shorter `Y` leaves the input
/// unchanged.
pub proof fn lemma_shorten_law(x: Seq<char>, y: Seq<char>)
    requires
        !has_newline(x),
        !has_newline(y),
        !has_split_pair(y),
    ensures
        y.len() >= PAREN_DROP_LEN ==> spec_shorten(x + seq![' ', '('] + y + seq![')']) == x,
        y.len() < PAREN_DROP_LEN ==> spec_shorten(x + seq![' ', '('] + y + seq![')']) == (x
            + seq![' ', '('] + y + seq![')']),
{
    let s = x + seq![' ', '('] + y + seq![')'];
    let xl = x.len() as int;
    assert(s.len() == xl + 3 + y.len());
    assert(s[xl] == ' ');
    assert(s[xl + 1] == '(');
    assert(s[s.len() - 1] == ')');
    assert(split_pos_ok(s, xl));
    assert forall|t: int| xl < t <= s.len() - 3 implies !split_pos_ok(s, t) by {
        if t == xl + 1 {
            assert(s[t] != ' ');
        } else {
            let o = t - xl - 2;
            assert(s[t] == y[o]);
            if o + 1 < y.len() {
                assert(s[t + 1] == y[o + 1]);
                if s[t] == ' ' && s[t + 1] == '(' {
                    assert(has_split_pair(y));
                }
            } else {
                assert(s[t + 1] == ')');
            }
        }
    }
    lemma_last_split_above(s, s.len() - 3, xl);
    assert(!has_newline(s)) by {
        if has_newline(s) {
            let k = choose|k: int| 0 <= k < s.len() && s[k] == '\n';
            if k < xl {
                assert(x[k] == '\n');
                assert(has_newline(x));
            } else if k >= xl + 2 && k < s.len() - 1 {
                assert(y[k - xl - 2] == '\n');
                assert(has_newline(y));
            }
        }
    }
    if y.len() >= PAREN_DROP_LEN {
        assert(spec_shortenable(s));
        assert(s.take(xl) =~= x);
    } else {
        assert(!spec_shortenable(s));
    }
}

/// The result of the heuristic on an input it does not change is that
/// input.
pub proof fn lemma_not_shortenable_fixed(s: Seq<char>)
    requires
        !spec_shortenable(s),
    ensures
        spec_shorten(s) == s,
{
}

/// Shortening is idempotent: running the heuristic on its own output
/// changes nothing further, on every input whose shortened form does not
/// itself end in another long parenthetical.
pub proof fn lemma_shorten_idempotent(s: Seq<char>)
    requires
        spec_shorten(s) != s ==> !spec_shortenable(spec_shorten(s)),
    ensures
        spec_shorten(spec_shorten(s)) == spec_shorten(s),
{
    if spec_shorten(s) == s {
    } else {
        lemma_not_shortenable_fixed(spec_shorten(s));
    }
}

} // verus!
