//! Small verified helpers for building and inspecting text.

use vstd::prelude::*;
use vstd::string::*;

verus! {

/// The pieces joined with `sep` between consecutive pieces.
pub open spec fn join_pieces(pieces: Seq<Seq<char>>, sep: Seq<char>) -> Seq<char>
    decreases pieces.len(),
{
    if pieces.len() == 0 {
        Seq::empty()
    } else if pieces.len() == 1 {
        pieces[0]
    } else {
        pieces[0] + sep + join_pieces(pieces.drop_first(), sep)
    }
}

fn join_from(items: &Vec<String>, sep: &str, i: usize) -> (r: String)
    requires
        i <= items@.len(),
    ensures
        r@ == join_pieces(items.deep_view().skip(i as int), sep@),
    decreases items@.len() - i,
{
    let ghost pieces = items.deep_view().skip(i as int);
    if i == items.len() {
        let r = String::new();
        assert(r@ =~= join_pieces(pieces, sep@));
        r
    } else if i + 1 == items.len() {
        let r = items[i].clone();
        assert(pieces.len() == 1 && pieces[0] == items.deep_view()[i as int]);
        assert(r@ =~= join_pieces(pieces, sep@));
        r
    } else {
        let mut r = items[i].clone();
        r.append(sep);
        let rest = join_from(items, sep, i + 1);
        r.append(rest.as_str());
        assert(pieces.drop_first() =~= items.deep_view().skip(i + 1));
        assert(pieces[0] == items.deep_view()[i as int]);
        assert(r@ =~= join_pieces(pieces, sep@));
        r
    }
}

/// Join the items with `sep` between consecutive items.
pub fn join_strings(items: &Vec<String>, sep: &str) -> (r: String)
    ensures
        r@ == join_pieces(items.deep_view(), sep@),
{
    let r = join_from(items, sep, 0);
    assert(items.deep_view().skip(0) =~= items.deep_view());
    r
}

/// The digit character for a value below ten.
pub open spec fn digit_char(d: nat) -> char {
    if d == 0 {
        '0'
    } else if d == 1 {
        '1'
    } else if d == 2 {
        '2'
    } else if d == 3 {
        '3'
    } else if d == 4 {
        '4'
    } else if d == 5 {
        '5'
    } else if d == 6 {
        '6'
    } else if d == 7 {
        '7'
    } else if d == 8 {
        '8'
    } else {
        '9'
    }
}

/// The decimal text of a natural number.
pub open spec fn dec_of(n: nat) -> Seq<char>
    decreases n,
{
    if n < 10 {
        seq![digit_char(n)]
    } else {
        dec_of(n / 10).push(digit_char(n % 10))
    }
}

fn digit_str(d: u64) -> (r: &'static str)
    requires
        d < 10,
    ensures
        r@ == seq![digit_char(d as nat)],
{
    if d == 0 {
        let r = "0";
        proof { reveal_strlit("0"); }
        assert(r@ =~= seq![digit_char(d as nat)]);
        r
    } else if d == 1 {
        let r = "1";
        proof { reveal_strlit("1"); }
        assert(r@ =~= seq![digit_char(d as nat)]);
        r
    } else if d == 2 {
        let r = "2";
        proof { reveal_strlit("2"); }
        assert(r@ =~= seq![digit_char(d as nat)]);
        r
    } else if d == 3 {
        let r = "3";
        proof { reveal_strlit("3"); }
        assert(r@ =~= seq![digit_char(d as nat)]);
        r
    } else if d == 4 {
        let r = "4";
        proof { reveal_strlit("4"); }
        assert(r@ =~= seq![digit_char(d as nat)]);
        r
    } else if d == 5 {
        let r = "5";
        proof { reveal_strlit("5"); }
        assert(r@ =~= seq![digit_char(d as nat)]);
        r
    } else if d == 6 {
        let r = "6";
        proof { reveal_strlit("6"); }
        assert(r@ =~= seq![digit_char(d as nat)]);
        r
    } else if d == 7 {
        let r = "7";
        proof { reveal_strlit("7"); }
        assert(r@ =~= seq![digit_char(d as nat)]);
        r
    } else if d == 8 {
        let r = "8";
        proof { reveal_strlit("8"); }
        assert(r@ =~= seq![digit_char(d as nat)]);
        r
    } else {
        let r = "9";
        proof { reveal_strlit("9"); }
        assert(r@ =~= seq![digit_char(d as nat)]);
        r
    }
}

/// Format a number in decimal.
pub fn u64_to_dec(n: u64) -> (r: String)
    ensures
        r@ == dec_of(n as nat),
    decreases n,
{
    if n < 10 {
        let mut r = String::new();
        r.append(digit_str(n));
        assert(r@ =~= dec_of(n as nat));
        r
    } else {
        let mut r = u64_to_dec(n / 10);
        r.append(digit_str(n % 10));
        assert(r@ =~= dec_of(n as nat));
        r
    }
}

/// The text with every dot replaced by a slash.
pub open spec fn dots_to_slashes(s: Seq<char>) -> Seq<char> {
    s.map_values(|c: char| if c == '.' { '/' } else { c })
}

/// Replace every dot with a slash.
pub fn replace_dots_with_slashes(s: &str) -> (r: String)
    ensures
        r@ == dots_to_slashes(s@),
{
    let n = s.unicode_len();
    let mut r = String::new();
    let mut i: usize = 0;
    while i < n
        invariant
            i <= n,
            n == s@.len(),
            r@ == dots_to_slashes(s@.take(i as int)),
        decreases n - i,
    {
        let c = s.get_char(i);
        if c == '.' {
            r.append("/");
            proof {
                reveal_strlit("/");
            }
        } else {
            let piece = s.substring_char(i, i + 1);
            r.append(piece);
        }
        proof {
            assert(r@ =~= dots_to_slashes(s@.take(i + 1)));
        }
        i = i + 1;
    }
    proof {
        assert(s@.take(n as int) =~= s@);
    }
    r
}

/// Whether the two texts hold the same characters.
pub fn eq_str(a: &str, b: &str) -> (r: bool)
    ensures
        r == (a@ == b@),
{
    let sa = String::from_str(a);
    let sb = String::from_str(b);
    sa == sb
}

/// Whether `s` ends with `suffix`, as character sequences.
pub open spec fn spec_ends_with(s: Seq<char>, suffix: Seq<char>) -> bool {
    s.len() >= suffix.len() && s.skip(s.len() - suffix.len()) == suffix
}

/// Whether `s` ends with `suffix`.
pub fn ends_with_str(s: &str, suffix: &str) -> (r: bool)
    ensures
        r == spec_ends_with(s@, suffix@),
{
    let n = s.unicode_len();
    let m = suffix.unicode_len();
    if n < m {
        false
    } else {
        let tail = s.substring_char(n - m, n);
        let r = eq_str(tail, suffix);
        assert(s@.subrange(n - m, n as int) =~= s@.skip(s@.len() - suffix@.len()));
        r
    }
}

/// The characters of `s` with the last `k` removed.
pub fn strip_last_chars(s: &str, k: usize) -> (r: String)
    requires
        k <= s@.len(),
    ensures
        r@ == s@.take(s@.len() - k),
{
    let n = s.unicode_len();
    let head = s.substring_char(0, n - k);
    let r = head.to_owned();
    assert(s@.subrange(0, n - k) =~= s@.take(s@.len() - k));
    r
}

/// The character sequences of a list of names.
pub open spec fn names_view(s: Seq<String>) -> Seq<Seq<char>> {
    s.map_values(|x: String| x@)
}

/// Whether a list of names holds `n`.
pub open spec fn seq_has_name(names: Seq<Seq<char>>, n: Seq<char>) -> bool {
    exists|i: int| 0 <= i < names.len() && #[trigger] names[i] == n
}

/// The names are pairwise distinct.
pub open spec fn distinct_names(names: Seq<Seq<char>>) -> bool {
    forall|i: int, j: int| 0 <= i < j < names.len() ==> #[trigger] names[i] != (#[trigger] names[j])
}

/// Check whether the list holds the name.
pub fn contains_name(v: &Vec<String>, n: &str) -> (r: bool)
    ensures
        r == seq_has_name(names_view(v@), n@),
{
    let mut i: usize = 0;
    while i < v.len()
        invariant
            i <= v@.len(),
            forall|j: int| 0 <= j < i ==> #[trigger] names_view(v@)[j] != n@,
        decreases v@.len() - i,
    {
        if eq_str(v[i].as_str(), n) {
            assert(names_view(v@)[i as int] == n@);
            return true;
        }
        i = i + 1;
    }
    false
}

/// Add the name unless it is already present.
pub fn insert_unique(v: &mut Vec<String>, n: &str)
    requires
        distinct_names(names_view(old(v)@)),
    ensures
        distinct_names(names_view(final(v)@)),
        seq_has_name(names_view(final(v)@), n@),
        forall|k: Seq<char>|
            #[trigger] seq_has_name(names_view(final(v)@), k) == (seq_has_name(
                names_view(old(v)@),
                k,
            ) || k == n@),
        names_view(final(v)@).len() == if seq_has_name(names_view(old(v)@), n@) {
            names_view(old(v)@).len()
        } else {
            names_view(old(v)@).len() + 1
        },
        seq_has_name(names_view(old(v)@), n@) ==> final(v)@ == old(v)@,
{
    if contains_name(v, n) {
        return ;
    }
    let ghost old_names = names_view(v@);
    v.push(String::from_str(n));
    proof {
        assert(names_view(v@) =~= old_names.push(n@));
        assert forall|k: Seq<char>|
            #[trigger] seq_has_name(names_view(v@), k) == (seq_has_name(old_names, k) || k
                == n@) by {
            let names = names_view(v@);
            if seq_has_name(names, k) {
                let i = choose|i: int| 0 <= i < names.len() && #[trigger] names[i] == k;
                if i < old_names.len() {
                    assert(old_names[i] == k);
                } else {
                }
            }
            if seq_has_name(old_names, k) {
                let i = choose|i: int| 0 <= i < old_names.len() && #[trigger] old_names[i] == k;
                assert(names[i] == k);
            }
            if k == n@ {
                assert(names[names.len() - 1] == k);
            }
        }
        assert forall|i: int, j: int|
            0 <= i < j < names_view(v@).len() implies #[trigger] names_view(v@)[i] != (
        #[trigger] names_view(v@)[j]) by {
            if j < old_names.len() {
            } else {
                assert(names_view(v@)[j] == n@);
                if i < old_names.len() {
                    assert(!seq_has_name(old_names, n@));
                    assert(old_names[i] == names_view(v@)[i]);
                }
            }
        }
    }
}

/// Strict lexicographic order on texts, by code point.
pub open spec fn lex_lt(a: Seq<char>, b: Seq<char>) -> bool
    decreases a.len(),
{
    if b.len() == 0 {
        false
    } else if a.len() == 0 {
        true
    } else if (a[0] as u32) < (b[0] as u32) {
        true
    } else if (a[0] as u32) > (b[0] as u32) {
        false
    } else {
        lex_lt(a.skip(1), b.skip(1))
    }
}

/// The lexicographic order never holds reflexively.
pub proof fn lemma_lex_irreflexive(a: Seq<char>)
    ensures
        !lex_lt(a, a),
    decreases a.len(),
{
    if a.len() > 0 {
        lemma_lex_irreflexive(a.skip(1));
    }
}

/// The lexicographic order is transitive.
pub proof fn lemma_lex_transitive(a: Seq<char>, b: Seq<char>, c: Seq<char>)
    requires
        lex_lt(a, b),
        lex_lt(b, c),
    ensures
        lex_lt(a, c),
    decreases a.len(),
{
    if b.len() == 0 {
    } else if c.len() == 0 {
    } else if a.len() == 0 {
    } else {
        if (a[0] as u32) == (b[0] as u32) && (b[0] as u32) == (c[0] as u32) {
            lemma_lex_transitive(a.skip(1), b.skip(1), c.skip(1));
        }
    }
}

/// Two texts neither of which is lexicographically below the other are
/// equal.
pub proof fn lemma_lex_total(a: Seq<char>, b: Seq<char>)
    requires
        !lex_lt(a, b),
        !lex_lt(b, a),
    ensures
        a == b,
    decreases a.len(),
{
    if a.len() == 0 {
        assert(b.len() == 0);
        assert(a =~= b);
    } else {
        assert(b.len() > 0);
        assert((a[0] as u32) == (b[0] as u32));
        vstd::utf8::char_u32_cast(a[0], a[0] as u32);
        vstd::utf8::char_u32_cast(b[0], b[0] as u32);
        assert(a[0] == b[0]);
        lemma_lex_total(a.skip(1), b.skip(1));
        assert forall|k: int| 0 <= k < a.len() implies a[k] == b[k] by {
            if k > 0 {
                assert(a.skip(1)[k - 1] == a[k]);
                assert(b.skip(1)[k - 1] == b[k]);
            }
        }
        assert(a =~= b);
    }
}

/// Compare two texts in lexicographic order.
pub fn str_lex_lt(a: &str, b: &str) -> (r: bool)
    ensures
        r == lex_lt(a@, b@),
{
    let na = a.unicode_len();
    let nb = b.unicode_len();
    proof {
        assert(a@.skip(0) =~= a@);
        assert(b@.skip(0) =~= b@);
    }
    let mut i: usize = 0;
    while i < na && i < nb
        invariant
            i <= na,
            i <= nb,
            na == a@.len(),
            nb == b@.len(),
            lex_lt(a@, b@) == lex_lt(a@.skip(i as int), b@.skip(i as int)),
        decreases na - i,
    {
        let ca = a.get_char(i);
        let cb = b.get_char(i);
        let ghost sa = a@.skip(i as int);
        let ghost sb = b@.skip(i as int);
        proof {
            assert(sa[0] == a@[i as int]);
            assert(sb[0] == b@[i as int]);
        }
        if (ca as u32) < (cb as u32) {
            proof {
                assert(lex_lt(sa, sb));
            }
            return true;
        }
        if (ca as u32) > (cb as u32) {
            proof {
                assert(!lex_lt(sa, sb));
            }
            return false;
        }
        proof {
            assert(sa.skip(1) =~= a@.skip(i + 1));
            assert(sb.skip(1) =~= b@.skip(i + 1));
        }
        i = i + 1;
    }
    proof {
        let sa = a@.skip(i as int);
        let sb = b@.skip(i as int);
        if i == na {
            assert(sa.len() == 0);
            if i < nb {
                assert(sb.len() > 0);
                assert(lex_lt(sa, sb));
            } else {
                assert(sb.len() == 0);
                assert(!lex_lt(sa, sb));
            }
        } else {
            assert(sb.len() == 0);
            assert(!lex_lt(sa, sb));
        }
    }
    i < nb
}

} // verus!
