//! Naming transforms: snake_case labels to CamelCase type identifiers, and
//! the fixed exception table for property names that collide with reserved
//! identifiers.

use vstd::prelude::*;

verus! {

/// ASCII upper-casing of a single character; characters outside `a..=z` are
/// unchanged.
pub open spec fn upper_char(c: char) -> char {
    match c {
        'a' => 'A',
        'b' => 'B',
        'c' => 'C',
        'd' => 'D',
        'e' => 'E',
        'f' => 'F',
        'g' => 'G',
        'h' => 'H',
        'i' => 'I',
        'j' => 'J',
        'k' => 'K',
        'l' => 'L',
        'm' => 'M',
        'n' => 'N',
        'o' => 'O',
        'p' => 'P',
        'q' => 'Q',
        'r' => 'R',
        's' => 'S',
        't' => 'T',
        'u' => 'U',
        'v' => 'V',
        'w' => 'W',
        'x' => 'X',
        'y' => 'Y',
        'z' => 'Z',
        _ => c,
    }
}

fn upper_char_exec(c: char) -> (r: char)
    ensures
        r == upper_char(c),
{
    match c {
        'a' => 'A',
        'b' => 'B',
        'c' => 'C',
        'd' => 'D',
        'e' => 'E',
        'f' => 'F',
        'g' => 'G',
        'h' => 'H',
        'i' => 'I',
        'j' => 'J',
        'k' => 'K',
        'l' => 'L',
        'm' => 'M',
        'n' => 'N',
        'o' => 'O',
        'p' => 'P',
        'q' => 'Q',
        'r' => 'R',
        's' => 'S',
        't' => 'T',
        'u' => 'U',
        'v' => 'V',
        'w' => 'W',
        'x' => 'X',
        'y' => 'Y',
        'z' => 'Z',
        _ => c,
    }
}

/// CamelCase conversion of the suffix `s`, where `cap` says whether the next
/// letter starts a segment: underscores are dropped and the first character
/// of every segment is upper-cased.
pub open spec fn camel_rec(s: Seq<char>, cap: bool) -> Seq<char>
    decreases s.len(),
{
    if s.len() == 0 {
        Seq::<char>::empty()
    } else if s[0] == '_' {
        camel_rec(s.skip(1), true)
    } else if cap {
        seq![upper_char(s[0])] + camel_rec(s.skip(1), false)
    } else {
        seq![s[0]] + camel_rec(s.skip(1), false)
    }
}

/// CamelCase form of a snake_case label: segments are split on `_`, each
/// segment's first character is upper-cased, and the underscores are dropped.
pub open spec fn camel_of(s: Seq<char>) -> Seq<char> {
    camel_rec(s, true)
}

/// Appends one character to a string.
///
/// Relies on `String::push`: appends the given `char` to the end of the
/// `String`.
#[verifier::external_body]
pub(crate) fn push_char(s: &mut String, c: char)
    ensures
        final(s)@ == old(s)@.push(c),
{
    s.push(c);
}

/// Converts a snake_case or raw label to the CamelCase identifier used for
/// generated type and variant names.
pub fn to_camel_case(s: &str) -> (r: String)
    ensures
        r@ == camel_of(s@),
{
    let n: usize = s.unicode_len();
    let mut r: String = String::new();
    let mut cap: bool = true;
    let mut i: usize = 0;
    proof {
        assert(s@.skip(0) =~= s@);
        assert(r@ + camel_rec(s@, true) =~= camel_of(s@));
    }
    while i < n
        invariant
            n == s@.len(),
            0 <= i <= n,
            camel_of(s@) == r@ + camel_rec(s@.skip(i as int), cap),
        decreases n - i,
    {
        let c = s.get_char(i);
        proof {
            assert(s@.skip(i as int)[0] == s@[i as int]);
            assert(s@.skip(i as int).skip(1) =~= s@.skip(i + 1));
        }
        if c == '_' {
            cap = true;
        } else if cap {
            let u = upper_char_exec(c);
            push_char(&mut r, u);
            cap = false;
            proof {
                assert(r@ + camel_rec(s@.skip(i + 1), false) =~= camel_of(s@));
            }
        } else {
            push_char(&mut r, c);
            proof {
                assert(r@ + camel_rec(s@.skip(i + 1), false) =~= camel_of(s@));
            }
        }
        i = i + 1;
    }
    proof {
        assert(s@.skip(n as int) =~= Seq::<char>::empty());
        assert(r@ + camel_rec(s@.skip(n as int), cap) =~= r@);
    }
    r
}

/// Character-wise string equality; `true` exactly when the two views are the
/// same character sequence.
pub fn str_eq(a: &str, b: &str) -> (r: bool)
    ensures
        r == (a@ == b@),
{
    let la: usize = a.unicode_len();
    let lb: usize = b.unicode_len();
    if la != lb {
        return false;
    }
    let mut i: usize = 0;
    while i < la
        invariant
            la == a@.len(),
            la == b@.len(),
            0 <= i <= la,
            forall|j: int| 0 <= j < i ==> a@[j] == b@[j],
        decreases la - i,
    {
        if a.get_char(i) != b.get_char(i) {
            return false;
        }
        i = i + 1;
    }
    proof {
        assert(a@ =~= b@);
    }
    true
}

/// A lowercase ASCII letter.
pub open spec fn is_lower(c: char) -> bool {
    97 <= c as int <= 122
}

/// A well-formed tail of a snake_case identifier: lowercase letters, with
/// every underscore followed by a lowercase letter.
pub open spec fn wf_snake_tail(s: Seq<char>) -> bool
    decreases s.len(),
{
    if s.len() == 0 {
        true
    } else if s[0] == '_' {
        s.len() >= 2 && is_lower(s[1]) && wf_snake_tail(s.skip(1))
    } else {
        is_lower(s[0]) && wf_snake_tail(s.skip(1))
    }
}

/// A well-formed snake_case identifier: non-empty lowercase segments joined
/// by single underscores, neither starting nor ending with an underscore.
pub open spec fn wf_snake(s: Seq<char>) -> bool {
    s.len() == 0 || (is_lower(s[0]) && wf_snake_tail(s))
}

proof fn lemma_upper_shift(c: char)
    requires
        is_lower(c),
    ensures
        upper_char(c) as int == c as int - 32,
{
}

proof fn lemma_camel_rec_nonempty(s: Seq<char>, cap: bool)
    requires
        wf_snake_tail(s),
        s.len() > 0,
    ensures
        camel_rec(s, cap).len() > 0,
    decreases s.len(),
{
    if s[0] == '_' {
        lemma_camel_rec_nonempty(s.skip(1), true);
    }
}

proof fn lemma_camel_rec_injective(s: Seq<char>, t: Seq<char>, cap: bool)
    requires
        wf_snake_tail(s),
        wf_snake_tail(t),
        cap ==> (s.len() > 0 ==> s[0] != '_') && (t.len() > 0 ==> t[0] != '_'),
        camel_rec(s, cap) == camel_rec(t, cap),
    ensures
        s =~= t,
    decreases s.len() + t.len(),
{
    if s.len() == 0 && t.len() == 0 {
    } else if s.len() == 0 {
        lemma_camel_rec_nonempty(t, cap);
    } else if t.len() == 0 {
        lemma_camel_rec_nonempty(s, cap);
    } else if s[0] != '_' && t[0] != '_' {
        let c = if cap {
            upper_char(s[0])
        } else {
            s[0]
        };
        let d = if cap {
            upper_char(t[0])
        } else {
            t[0]
        };
        assert(camel_rec(s, cap)[0] == c);
        assert(camel_rec(t, cap)[0] == d);
        if cap {
            lemma_upper_shift(s[0]);
            lemma_upper_shift(t[0]);
        }
        assert(s[0] == t[0]);
        assert(camel_rec(s.skip(1), false) =~= camel_rec(t.skip(1), false)) by {
            assert(camel_rec(s, cap).len() == 1 + camel_rec(s.skip(1), false).len());
            assert(camel_rec(t, cap).len() == 1 + camel_rec(t.skip(1), false).len());
            assert(forall|i: int|
                0 <= i < camel_rec(s.skip(1), false).len() ==> camel_rec(s.skip(1), false)[i]
                    == camel_rec(s, cap)[i + 1]);
            assert(forall|i: int|
                0 <= i < camel_rec(t.skip(1), false).len() ==> camel_rec(t.skip(1), false)[i]
                    == camel_rec(t, cap)[i + 1]);
        }
        lemma_camel_rec_injective(s.skip(1), t.skip(1), false);
        assert(s =~= seq![s[0]] + s.skip(1));
        assert(t =~= seq![t[0]] + t.skip(1));
    } else if s[0] == '_' && t[0] == '_' {
        lemma_camel_rec_injective(s.skip(1), t.skip(1), true);
        assert(s =~= seq![s[0]] + s.skip(1));
        assert(t =~= seq![t[0]] + t.skip(1));
    } else if s[0] == '_' {
        // An underscore boundary upper-cases the next letter, a plain letter
        // stays lowercase: the first output characters cannot agree.
        assert(s.skip(1)[0] == s[1]);
        assert(camel_rec(s, cap) == camel_rec(s.skip(1), true));
        assert(camel_rec(s, cap)[0] == upper_char(s[1]));
        lemma_upper_shift(s[1]);
        assert(camel_rec(t, cap)[0] == (if cap {
            upper_char(t[0])
        } else {
            t[0]
        }));
        assert(!cap);
        assert(is_lower(camel_rec(t, cap)[0]));
        assert(false);
    } else {
        assert(t.skip(1)[0] == t[1]);
        assert(camel_rec(t, cap) == camel_rec(t.skip(1), true));
        assert(camel_rec(t, cap)[0] == upper_char(t[1]));
        lemma_upper_shift(t[1]);
        assert(!cap);
        assert(is_lower(camel_rec(s, cap)[0]));
        assert(false);
    }
}

/// On well-formed snake_case identifiers the CamelCase transform is
/// injective: distinct names keep distinct identifiers. (With ill-formed
/// names this can fail: a digit does not mark a segment boundary, so two
/// names that differ only by an underscore before a digit collide.)
pub proof fn lemma_camel_injective(s: Seq<char>, t: Seq<char>)
    requires
        wf_snake(s),
        wf_snake(t),
        camel_of(s) == camel_of(t),
    ensures
        s == t,
{
    lemma_camel_rec_injective(s, t, true);
}

/// The fixed exception table: a property name that collides with a reserved
/// identifier is remapped; every other name is kept as it is.
pub open spec fn corrected_of(s: Seq<char>) -> Seq<char> {
    if s == "type"@ {
        "ty"@
    } else if s == "in"@ {
        "_in"@
    } else {
        s
    }
}

/// Remaps a property name that collides with a reserved identifier to a
/// disambiguated field name; any other name passes through unchanged.
pub fn correct_variable_name(name: &str) -> (r: &str)
    ensures
        r@ == corrected_of(name@),
{
    if str_eq(name, "type") {
        "ty"
    } else if str_eq(name, "in") {
        "_in"
    } else {
        name
    }
}

} // verus!
