//! Text helpers the synthesizers share: lower-casing identifiers, detecting
//! upper-case characters, splitting dotted namespaces, and stripping a
//! namespace prefix from a qualified type name.

use vstd::prelude::*;
use vstd::string::*;

verus! {

/// True when every character of `s` is an ASCII code point.
pub open spec fn seq_is_ascii(s: Seq<char>) -> bool {
    forall|i: int| 0 <= i < s.len() ==> (#[trigger] s[i] as u32) < 128
}

/// ASCII lowering of one character: `A`..`Z` shift to `a`..`z`, all else kept.
pub open spec fn ascii_lower_char(c: char) -> char {
    if 65 <= c as u32 && c as u32 <= 90 {
        ((c as u32 + 32) as u8) as char
    } else {
        c
    }
}

/// ASCII lowering of a whole character sequence.
pub open spec fn ascii_lower_seq(s: Seq<char>) -> Seq<char> {
    s.map_values(|c: char| ascii_lower_char(c))
}

/// What `str::to_lowercase` returns for a string that is not pure ASCII.
pub uninterp spec fn unicode_lower(s: Seq<char>) -> Seq<char>;

/// Lower-casing as the generator applies it to identifiers and namespace
/// segments: the ASCII case is fixed exactly, the rest is named.
pub open spec fn lower_spec(s: Seq<char>) -> Seq<char> {
    if seq_is_ascii(s) {
        ascii_lower_seq(s)
    } else {
        unicode_lower(s)
    }
}

/// Relies on `str::to_lowercase`: the result depends on the characters alone,
/// and on ASCII input it lower-cases exactly the letters `A`..`Z`.
#[verifier::external_body]
pub(crate) fn to_lower(s: &str) -> (r: String)
    ensures
        r@ == lower_spec(s@),
        !seq_is_ascii(s@) ==> r@ == unicode_lower(s@),
{
    s.to_lowercase()
}

/// What `char::is_uppercase` returns for a character outside ASCII.
pub uninterp spec fn unicode_is_upper(c: char) -> bool;

/// Upper-case test on one character: exact on ASCII, named beyond it.
pub open spec fn upper_char(c: char) -> bool {
    if (c as u32) < 128 {
        65 <= c as u32 && c as u32 <= 90
    } else {
        unicode_is_upper(c)
    }
}

/// Relies on `char::is_uppercase`: the result depends on the character alone,
/// and on ASCII characters it holds exactly for `A`..`Z`.
#[verifier::external_body]
pub(crate) fn char_is_upper(c: char) -> (r: bool)
    ensures
        r == upper_char(c),
        c as u32 >= 128 ==> r == unicode_is_upper(c),
{
    c.is_uppercase()
}

/// True when some character of `s` is upper-case.
pub open spec fn has_upper(s: Seq<char>) -> bool {
    exists|i: int| 0 <= i < s.len() && upper_char(#[trigger] s[i])
}

/// Does the string contain an upper-case character?  Decides whether a field
/// keeps a serialization-name override for its original spelling.
pub fn contains_upper(s: &str) -> (r: bool)
    ensures
        r == has_upper(s@),
{
    let n = s.unicode_len();
    let mut i: usize = 0;
    while i < n
        invariant
            0 <= i <= n == s@.len(),
            forall|j: int| 0 <= j < i ==> !upper_char(#[trigger] s@[j]),
        decreases n - i,
    {
        if char_is_upper(s.get_char(i)) {
            return true;
        }
        i += 1;
    }
    false
}

/// The generator's reserved-keyword set is the single literal `type`.
pub open spec fn is_keyword(s: Seq<char>) -> bool {
    s == "type"@
}

/// Runtime check for `is_keyword`.
pub fn check_keyword(s: &str) -> (r: bool)
    ensures
        r == is_keyword(s@),
{
    let kw: String = "type".to_owned();
    s.to_owned().eq(&kw)
}

/// Splitting a character sequence on `.`: the first segment, then the split
/// of what follows the first dot.  A sequence without a dot is one segment,
/// so the result is never empty.
pub open spec fn split_dots(s: Seq<char>) -> Seq<Seq<char>>
    decreases s.len() via split_dots_decreases
{
    if exists|i: int| 0 <= i < s.len() && s[i] == '.' {
        let d = first_dot(s);
        seq![s.take(d)] + split_dots(s.skip(d + 1))
    } else {
        seq![s]
    }
}

#[via_fn]
proof fn split_dots_decreases(s: Seq<char>) {
    if exists|i: int| 0 <= i < s.len() && s[i] == '.' {
        lemma_first_dot(s);
    }
}

/// Index of the first `.` in `s`, meaningful only when one exists.
pub open spec fn first_dot(s: Seq<char>) -> int
    decreases s.len(),
{
    if s.len() == 0 {
        0
    } else if s[0] == '.' {
        0
    } else {
        1 + first_dot(s.skip(1))
    }
}

/// `first_dot` really is the first dot: it lies on a dot, and nothing before
/// it is one, whenever a dot exists at all.
proof fn lemma_first_dot(s: Seq<char>)
    requires
        exists|i: int| 0 <= i < s.len() && s[i] == '.',
    ensures
        0 <= first_dot(s) < s.len(),
        s[first_dot(s)] == '.',
        forall|j: int| 0 <= j < first_dot(s) ==> s[j] != '.',
    decreases s.len(),
{
    if s.len() == 0 {
    } else if s[0] == '.' {
    } else {
        let i = choose|i: int| 0 <= i < s.len() && s[i] == '.';
        assert(s.skip(1)[i - 1] == '.');
        lemma_first_dot(s.skip(1));
        assert forall|j: int| 0 <= j < first_dot(s) implies s[j] != '.' by {
            if j > 0 {
                assert(s.skip(1)[j - 1] != '.');
            }
        }
    }
}

/// When the first dot of `s` stands at `d`, the split is the prefix before
/// `d` followed by the split of the rest.
proof fn lemma_split_at_first_dot(s: Seq<char>, d: int)
    requires
        0 <= d < s.len(),
        s[d] == '.',
        forall|j: int| 0 <= j < d ==> s[j] != '.',
    ensures
        split_dots(s) == seq![s.take(d)] + split_dots(s.skip(d + 1)),
{
    assert(exists|i: int| 0 <= i < s.len() && s[i] == '.');
    lemma_first_dot(s);
    let f = first_dot(s);
    if f < d {
        assert(s[f] != '.');
    } else if d < f {
        assert(s[d] != '.');
    }
}

/// A sequence without any dot splits into itself alone.
proof fn lemma_split_no_dot(s: Seq<char>)
    requires
        forall|j: int| 0 <= j < s.len() ==> s[j] != '.',
    ensures
        split_dots(s) == seq![s],
{
    if exists|i: int| 0 <= i < s.len() && s[i] == '.' {
        let i = choose|i: int| 0 <= i < s.len() && s[i] == '.';
        assert(s[i] != '.');
    }
}

/// Split a dotted name into its segments, left to right.
pub fn split_on_dots(s: &str) -> (r: Vec<String>)
    ensures
        r.deep_view() == split_dots(s@),
        r.len() > 0,
{
    let n = s.unicode_len();
    let mut r: Vec<String> = Vec::new();
    let mut start: usize = 0;
    let mut i: usize = 0;
    proof {
        assert(s@.skip(0) =~= s@);
        assert(r.deep_view() + split_dots(s@) =~= split_dots(s@));
    }
    while i < n
        invariant
            0 <= start <= i <= n == s@.len(),
            forall|j: int| start <= j < i ==> s@[j] != '.',
            split_dots(s@) == r.deep_view() + split_dots(s@.skip(start as int)),
        decreases n - i,
    {
        if s.get_char(i) == '.' {
            let seg = s.substring_char(start, i).to_owned();
            let ghost dv0 = r.deep_view();
            proof {
                let rest = s@.skip(start as int);
                assert(rest[i - start] == '.');
                assert forall|j: int| 0 <= j < i - start implies rest[j] != '.' by {
                    assert(rest[j] == s@[start + j]);
                }
                lemma_split_at_first_dot(rest, i - start);
                assert(rest.take(i - start) =~= s@.subrange(start as int, i as int));
                assert(rest.skip(i - start + 1) =~= s@.skip(i + 1));
            }
            r.push(seg);
            proof {
                assert(r.deep_view() =~= dv0 + seq![seg@]);
                assert((dv0 + seq![seg@]) + split_dots(s@.skip(i + 1)) =~= dv0 + (seq![seg@]
                    + split_dots(s@.skip(i + 1))));
            }
            start = i + 1;
        }
        i += 1;
    }
    let seg = s.substring_char(start, n).to_owned();
    let ghost dv0 = r.deep_view();
    proof {
        let rest = s@.skip(start as int);
        assert forall|j: int| 0 <= j < rest.len() implies rest[j] != '.' by {
            assert(rest[j] == s@[start + j]);
        }
        lemma_split_no_dot(rest);
        assert(rest =~= s@.subrange(start as int, n as int));
    }
    r.push(seg);
    proof {
        assert(r.deep_view() =~= dv0 + seq![seg@]);
        assert(split_dots(s@) == r.deep_view());
    }
    r
}

/// The lowered segments of a dotted namespace: the module path the schema's
/// declarations live under.
pub open spec fn namespace_path(ns: Seq<char>) -> Seq<Seq<char>> {
    split_dots(ns).map_values(|seg: Seq<char>| lower_spec(seg))
}

/// Split a namespace on dots and lower-case each segment.
pub fn split_namespace(ns: &str) -> (r: Vec<String>)
    ensures
        r.deep_view() == namespace_path(ns@),
        r.len() > 0,
{
    let segs = split_on_dots(ns);
    let mut r: Vec<String> = Vec::new();
    let mut i: usize = 0;
    proof {
        assert(r.deep_view() =~= namespace_path(ns@).take(0));
    }
    while i < segs.len()
        invariant
            0 <= i <= segs.len(),
            segs.deep_view() == split_dots(ns@),
            r.deep_view() == namespace_path(ns@).take(i as int),
        decreases segs.len() - i,
    {
        let lowered = to_lower(segs[i].as_str());
        let ghost dv0 = r.deep_view();
        proof {
            assert(segs@[i as int]@ == segs.deep_view()[i as int]);
            assert(lowered@ == namespace_path(ns@)[i as int]);
        }
        r.push(lowered);
        proof {
            assert(r.deep_view() =~= dv0 + seq![lowered@]);
            assert(r.deep_view() =~= namespace_path(ns@).take(i + 1));
        }
        i += 1;
    }
    proof {
        assert(r.deep_view() =~= namespace_path(ns@));
    }
    r
}

/// Stripping the namespace prefix (namespace plus one dot) from a qualified
/// type name yields the local name, when the name does begin with it.
pub open spec fn strip_prefix(qualified: Seq<char>, ns: Seq<char>) -> Option<Seq<char>> {
    if qualified.len() > ns.len() && qualified.take(ns.len() as int) == ns
        && qualified[ns.len() as int] == '.' {
        Option::Some(qualified.skip(ns.len() as int + 1))
    } else {
        Option::None
    }
}

/// Strip `ns` plus a dot from the front of `qualified`, if present.
pub fn strip_namespace_prefix(qualified: &str, ns: &str) -> (r: Option<String>)
    ensures
        match r {
            Option::Some(local) => strip_prefix(qualified@, ns@) == Option::Some(local@),
            Option::None => strip_prefix(qualified@, ns@) is None,
        },
{
    let qn = qualified.unicode_len();
    let nn = ns.unicode_len();
    if qn <= nn {
        return Option::None;
    }
    let mut i: usize = 0;
    while i < nn
        invariant
            0 <= i <= nn == ns@.len(),
            qn == qualified@.len(),
            qn > nn,
            forall|j: int| 0 <= j < i ==> qualified@[j] == ns@[j],
        decreases nn - i,
    {
        if qualified.get_char(i) != ns.get_char(i) {
            proof {
                assert(qualified@.take(nn as int)[i as int] != ns@[i as int]);
            }
            return Option::None;
        }
        i += 1;
    }
    if qualified.get_char(nn) != '.' {
        return Option::None;
    }
    assert(qualified@.take(nn as int) =~= ns@);
    let local = qualified.substring_char(nn + 1, qn).to_owned();
    proof {
        assert(local@ =~= qualified@.skip(nn + 1));
    }
    Option::Some(local)
}

} // verus!
