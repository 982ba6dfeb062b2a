//! Text that is safe as one component of a path on every platform.
use crate::text::{chars_of, same_text, text_of};
use vstd::prelude::*;

verus! {

/// Whether a character may stand in a file name as it is.
pub open spec fn safe(c: char) -> bool {
    ('a' <= c <= 'z') || ('A' <= c <= 'Z') || ('0' <= c <= '9') || c == '_' || c == '-' || c == '.'
}

/// Whether a character may stand in a file name as it is: letters and digits of ASCII, and
/// `_`, `-`, `.`. Everything a platform forbids, or a shell makes awkward, is left out.
pub fn is_safe(c: char) -> (r: bool)
    ensures
        r == safe(c),
{
    ('a' <= c && c <= 'z') || ('A' <= c && c <= 'Z') || ('0' <= c && c <= '9') || c == '_' || c
        == '-' || c == '.'
}

/// The lower-case form of an ASCII letter; any other character unchanged.
pub open spec fn lower(c: char) -> char {
    if 'A' <= c <= 'Z' {
        ((c as u8 + 32) as u8) as char
    } else {
        c
    }
}

/// A text with its ASCII letters in lower case.
pub open spec fn lower_text(s: Seq<char>) -> Seq<char> {
    s.map_values(|c: char| lower(c))
}

fn lower_char(c: char) -> (r: char)
    ensures
        r == lower(c),
{
    if 'A' <= c && c <= 'Z' {
        (c as u8 + 32) as char
    } else {
        c
    }
}

/// The characters of a text, with its ASCII letters in lower case.
pub(crate) fn lower_chars(s: &Vec<char>) -> (r: Vec<char>)
    ensures
        r@ == lower_text(s@),
{
    let mut out: Vec<char> = Vec::new();
    let mut i: usize = 0;
    while i < s.len()
        invariant
            i <= s.len(),
            out@ == lower_text(s@.take(i as int)),
        decreases s.len() - i,
    {
        out.push(lower_char(s[i]));
        proof {
            assert(out@ =~= lower_text(s@.take(i + 1)));
        }
        i += 1;
    }
    proof {
        assert(s@.take(i as int) =~= s@);
    }
    out
}

/// A text with its ASCII letters in lower case.
pub fn folded(s: &str) -> (r: String)
    ensures
        r@ == lower_text(s@),
{
    text_of(&lower_chars(&chars_of(s)))
}

/// Whether two texts differ at most in the case of their ASCII letters.
pub fn same_folded(a: &str, b: &str) -> (r: bool)
    ensures
        r == (lower_text(a@) == lower_text(b@)),
{
    same_text(folded(a).as_str(), folded(b).as_str())
}

/// The part of a text before its first dot: all of it, where it has none.
pub open spec fn stem(s: Seq<char>) -> Seq<char>
    decreases s.len(),
{
    if s.len() == 0 || s[0] == '.' {
        seq![]
    } else {
        seq![s[0]] + stem(s.drop_first())
    }
}

/// Whether a text names a device on Windows, whatever the case and the extension.
pub open spec fn is_device(s: Seq<char>) -> bool {
    is_device_name(stem(s))
}

/// Whether a text without an extension names a device on Windows, whatever the case.
pub open spec fn is_device_name(s: Seq<char>) -> bool {
    let l = lower_text(s);
    ||| l == seq!['c', 'o', 'n']
    ||| l == seq!['p', 'r', 'n']
    ||| l == seq!['a', 'u', 'x']
    ||| l == seq!['n', 'u', 'l']
    ||| l.len() == 4 && '1' <= l[3] <= '9' && (l.take(3) == seq!['c', 'o', 'm'] || l.take(3) == seq![
        'l',
        'p',
        't',
    ])
}

fn three(s: &Vec<char>, a: char, b: char, c: char) -> (r: bool)
    requires
        s@.len() >= 3,
    ensures
        r == (s@.take(3) == seq![a, b, c]),
{
    let r = s[0] == a && s[1] == b && s[2] == c;
    proof {
        if r {
            assert(s@.take(3) =~= seq![a, b, c]);
        } else if s@.take(3) == seq![a, b, c] {
            assert(s@.take(3)[0] == a && s@.take(3)[1] == b && s@.take(3)[2] == c);
        }
    }
    r
}

proof fn stem_is_prefix(s: Seq<char>, n: int)
    requires
        0 <= n <= s.len(),
        forall|i: int| 0 <= i < n ==> s[i] != '.',
        n < s.len() ==> s[n] == '.',
    ensures
        stem(s) == s.take(n),
    decreases s.len(),
{
    if n > 0 {
        let rest = s.drop_first();
        assert forall|i: int| 0 <= i < n - 1 implies rest[i] != '.' by {
            assert(rest[i] == s[i + 1]);
        }
        stem_is_prefix(rest, n - 1);
        assert(seq![s[0]] + rest.take(n - 1) =~= s.take(n));
    } else {
        assert(s.take(0) =~= seq![]);
    }
}

fn device(s: &Vec<char>) -> (r: bool)
    ensures
        r == is_device(s@),
{
    let mut front: Vec<char> = Vec::new();
    let mut i: usize = 0;
    while i < s.len() && s[i] != '.'
        invariant
            i <= s.len(),
            front@ == s@.take(i as int),
            forall|j: int| 0 <= j < i ==> s@[j] != '.',
        decreases s.len() - i,
    {
        front.push(s[i]);
        proof {
            assert(front@ =~= s@.take(i + 1));
        }
        i += 1;
    }
    proof {
        stem_is_prefix(s@, i as int);
    }
    device_name(&front)
}

fn device_name(s: &Vec<char>) -> (r: bool)
    ensures
        r == is_device_name(s@),
{
    let l = lower_chars(s);
    if l.len() == 3 {
        proof {
            assert(l@.take(3) =~= l@);
        }
        three(&l, 'c', 'o', 'n') || three(&l, 'p', 'r', 'n') || three(&l, 'a', 'u', 'x') || three(
            &l,
            'n',
            'u',
            'l',
        )
    } else if l.len() == 4 {
        '1' <= l[3] && l[3] <= '9' && (three(&l, 'c', 'o', 'm') || three(&l, 'l', 'p', 't'))
    } else {
        false
    }
}

/// A text with every unsafe character flattened to `_`.
pub open spec fn flattened(s: Seq<char>) -> Seq<char> {
    s.map_values(
        |c: char|
            if safe(c) {
                c
            } else {
                '_'
            },
    )
}

/// A text without its leading dots.
pub open spec fn undotted_front(s: Seq<char>) -> Seq<char>
    decreases s.len(),
{
    if s.len() > 0 && s[0] == '.' {
        undotted_front(s.drop_first())
    } else {
        s
    }
}

/// A text without its trailing dots.
pub open spec fn undotted_back(s: Seq<char>) -> Seq<char>
    decreases s.len(),
{
    if s.len() > 0 && s.last() == '.' {
        undotted_back(s.drop_last())
    } else {
        s
    }
}

/// A text flattened to the safe characters, without dots at its ends.
pub open spec fn bare(s: Seq<char>) -> Seq<char> {
    undotted_back(undotted_front(flattened(s)))
}

/// A text as one component of a path.
pub open spec fn sanitized(s: Seq<char>) -> Seq<char> {
    if bare(s).len() == 0 || is_device(bare(s)) {
        seq!['x', '_'] + bare(s)
    } else {
        bare(s)
    }
}

/// Maps one fragment onto the filename-safe alphabet.
///
/// Deliberately not reversible: nothing reads the fragment back out of the name. Leading and
/// trailing dots go, since Windows strips a trailing one and a leading one hides a file on
/// Unix; and a fragment that would be empty, or whose part before the first dot is a Windows
/// device name, gets a stem that is neither.
pub fn sanitize(fragment: &str) -> (r: String)
    ensures
        r@ == sanitized(fragment@),
{
    let given = chars_of(fragment);
    let mut mapped: Vec<char> = Vec::new();
    let mut i: usize = 0;
    while i < given.len()
        invariant
            i <= given.len(),
            mapped@ == flattened(given@.take(i as int)),
        decreases given.len() - i,
    {
        if is_safe(given[i]) {
            mapped.push(given[i]);
        } else {
            mapped.push('_');
        }
        proof {
            assert(mapped@ =~= flattened(given@.take(i + 1)));
        }
        i += 1;
    }
    proof {
        assert(given@.take(i as int) =~= given@);
    }
    let ghost whole = mapped@;
    let mut from: usize = 0;
    proof {
        assert(whole.skip(0) =~= whole);
    }
    while from < mapped.len() && mapped[from] == '.'
        invariant
            from <= mapped.len(),
            mapped@ == whole,
            undotted_front(whole) == undotted_front(whole.skip(from as int)),
        ensures
            from <= mapped.len(),
            mapped@ == whole,
            undotted_front(whole) == whole.skip(from as int),
        decreases mapped.len() - from,
    {
        proof {
            assert(whole.skip(from as int).drop_first() =~= whole.skip(from + 1));
        }
        from += 1;
    }
    let mut to: usize = mapped.len();
    proof {
        assert(whole.subrange(from as int, to as int) =~= whole.skip(from as int));
    }
    while to > from && mapped[to - 1] == '.'
        invariant
            from <= to <= mapped.len(),
            mapped@ == whole,
            undotted_back(whole.skip(from as int)) == undotted_back(
                whole.subrange(from as int, to as int),
            ),
        ensures
            from <= to <= mapped.len(),
            mapped@ == whole,
            undotted_back(whole.skip(from as int)) == whole.subrange(from as int, to as int),
        decreases to - from,
    {
        proof {
            let s = whole.subrange(from as int, to as int);
            assert(s.drop_last() =~= whole.subrange(from as int, to - 1));
            assert(s.last() == whole[to - 1]);
        }
        to -= 1;
    }
    let mut kept: Vec<char> = Vec::new();
    let mut k: usize = from;
    while k < to
        invariant
            from <= k <= to <= mapped.len(),
            mapped@ == whole,
            kept@ == whole.subrange(from as int, k as int),
        decreases to - k,
    {
        kept.push(mapped[k]);
        k += 1;
    }
    proof {
        assert(kept@ == bare(fragment@));
    }
    if kept.len() == 0 || device(&kept) {
        let mut out: Vec<char> = Vec::new();
        out.push('x');
        out.push('_');
        out.append(&mut kept);
        proof {
            assert(out@ =~= seq!['x', '_'] + bare(fragment@));
        }
        text_of(&out)
    } else {
        text_of(&kept)
    }
}

// ---- What a sanitized fragment is ---------------------------------------------------

/// Whether a text can stand as one component of a path on Linux, macOS and Windows: it is
/// not empty, it holds safe characters alone, it neither begins nor ends with a dot, and its
/// part before the first dot names no device.
pub open spec fn legal_component(s: Seq<char>) -> bool {
    &&& s.len() > 0
    &&& forall|i: int| 0 <= i < s.len() ==> safe(#[trigger] s[i])
    &&& s[0] != '.'
    &&& s.last() != '.'
    &&& !is_device(s)
}

proof fn front_is_suffix(s: Seq<char>)
    ensures
        exists|k: int|
            #![trigger s.skip(k)]
            0 <= k <= s.len() && undotted_front(s) == s.skip(k),
        undotted_front(s).len() > 0 ==> undotted_front(s)[0] != '.',
    decreases s.len(),
{
    if s.len() > 0 && s[0] == '.' {
        front_is_suffix(s.drop_first());
        let t = s.drop_first();
        let k = choose|k: int|
            #![trigger t.skip(k)]
            0 <= k <= t.len() && undotted_front(t) == t.skip(k);
        assert(t.skip(k) =~= s.skip(k + 1));
    } else {
        assert(s.skip(0) =~= s);
    }
}

proof fn back_is_prefix(s: Seq<char>)
    ensures
        exists|k: int|
            #![trigger s.take(k)]
            0 <= k <= s.len() && undotted_back(s) == s.take(k),
        undotted_back(s).len() > 0 ==> undotted_back(s).last() != '.',
    decreases s.len(),
{
    if s.len() > 0 && s.last() == '.' {
        back_is_prefix(s.drop_last());
        let t = s.drop_last();
        let k = choose|k: int|
            #![trigger t.take(k)]
            0 <= k <= t.len() && undotted_back(t) == t.take(k);
        assert(t.take(k) =~= s.take(k));
    } else {
        assert(s.take(s.len() as int) =~= s);
    }
}

proof fn bare_facts(s: Seq<char>)
    ensures
        forall|i: int| 0 <= i < bare(s).len() ==> safe(#[trigger] bare(s)[i]),
        bare(s).len() > 0 ==> bare(s)[0] != '.' && bare(s).last() != '.',
{
    let f = flattened(s);
    let g = undotted_front(f);
    front_is_suffix(f);
    back_is_prefix(g);
    let k = choose|k: int|
        #![trigger f.skip(k)]
        0 <= k <= f.len() && g == f.skip(k);
    let m = choose|m: int|
        #![trigger g.take(m)]
        0 <= m <= g.len() && undotted_back(g) == g.take(m);
    assert forall|i: int| 0 <= i < bare(s).len() implies safe(#[trigger] bare(s)[i]) by {
        assert(bare(s)[i] == f[i + k]);
    }
    if bare(s).len() > 0 {
        assert(bare(s)[0] == g[0]);
    }
}

/// A sanitized fragment is a legal path component on every platform, whatever it was.
pub proof fn sanitized_is_legal(s: Seq<char>)
    ensures
        legal_component(sanitized(s)),
{
    bare_facts(s);
    let b = bare(s);
    let out = sanitized(s);
    if b.len() == 0 || is_device(b) {
        assert forall|i: int| 0 <= i < out.len() implies safe(#[trigger] out[i]) by {
            if i >= 2 {
                assert(out[i] == b[i - 2]);
            }
        }
        if b.len() > 0 {
            assert(out.last() == b.last());
        }
        assert(stem(out)[0] == 'x');
        let l = lower_text(stem(out));
        assert(l[0] == 'x');
        if is_device(out) {
            if l.len() == 4 {
                assert(l.take(3)[0] == 'x');
            }
            assert(seq!['c', 'o', 'n'][0] == 'c');
            assert(seq!['p', 'r', 'n'][0] == 'p');
            assert(seq!['a', 'u', 'x'][0] == 'a');
            assert(seq!['n', 'u', 'l'][0] == 'n');
            assert(seq!['c', 'o', 'm'][0] == 'c');
            assert(seq!['l', 'p', 't'][0] == 'l');
            assert(false);
        }
    }
}

/// What follows a dot is no part of the stem.
pub proof fn stem_ends_at_a_dot(s: Seq<char>, rest: Seq<char>)
    requires
        rest.len() > 0,
        rest[0] == '.',
    ensures
        stem(s + rest) == stem(s),
    decreases s.len(),
{
    let all = s + rest;
    if s.len() == 0 {
        assert(all[0] == '.');
    } else if s[0] != '.' {
        assert(all[0] == s[0]);
        assert(all.drop_first() =~= s.drop_first() + rest);
        stem_ends_at_a_dot(s.drop_first(), rest);
    } else {
        assert(all[0] == '.');
    }
}

/// A fragment that is legal already is left as it is; so sanitizing twice is sanitizing once.
pub proof fn sanitize_keeps_legal(s: Seq<char>)
    requires
        legal_component(s),
    ensures
        sanitized(s) == s,
{
    assert(flattened(s) =~= s);
}

/// A fragment without dots at its ends that names no device keeps its length: every letter, digit,
/// underscore, hyphen and dot as it is, and an underscore for everything else.
pub proof fn fragments_keep_their_letters(fragment: &str, r: String)
    requires
        call_ensures(sanitize, (fragment,), r),
        fragment@.len() > 0,
        fragment@[0] != '.',
        fragment@.last() != '.',
        !is_device(flattened(fragment@)),
    ensures
        r@.len() == fragment@.len(),
        forall|i: int|
            0 <= i < r@.len() ==> #[trigger] r@[i] == (if safe(fragment@[i]) {
                fragment@[i]
            } else {
                '_'
            }),
{
    let flat = flattened(fragment@);
    assert(flat[0] != '.');
    assert(flat.last() != '.');
    assert(undotted_front(flat) == flat);
    assert(undotted_back(flat) == flat);
}

/// Folding a text twice changes nothing more, and two texts are the same folded exactly where
/// their foldings are the same text.
pub proof fn folding_is_done_once(a: &str, b: &str, fa: String, fb: String, same: bool)
    requires
        call_ensures(folded, (a,), fa),
        call_ensures(folded, (b,), fb),
        call_ensures(same_folded, (a, b), same),
    ensures
        same <==> fa@ == fb@,
        fa@.len() == a@.len(),
        lower_text(fa@) == fa@,
        forall|i: int|
            0 <= i < a@.len() && !('A' <= a@[i] <= 'Z') ==> #[trigger] fa@[i] == a@[i],
{
    assert(lower_text(fa@) =~= fa@);
}

/// Whether a text is made of dots alone.
pub open spec fn dots(s: Seq<char>) -> bool {
    forall|i: int| 0 <= i < s.len() ==> #[trigger] s[i] == '.'
}

proof fn front_dots_go(front: Seq<char>, rest: Seq<char>)
    requires
        dots(front),
        rest.len() == 0 || rest[0] != '.',
    ensures
        undotted_front(front + rest) == rest,
    decreases front.len(),
{
    if front.len() > 0 {
        assert(front[0] == '.');
        assert((front + rest).drop_first() =~= front.drop_first() + rest);
        assert forall|i: int| 0 <= i < front.drop_first().len() implies #[trigger] front.drop_first()[i]
            == '.' by {
            assert(front[i + 1] == '.');
        }
        front_dots_go(front.drop_first(), rest);
    } else {
        assert(front + rest =~= rest);
    }
}

proof fn back_dots_go(rest: Seq<char>, back: Seq<char>)
    requires
        dots(back),
        rest.len() == 0 || rest.last() != '.',
    ensures
        undotted_back(rest + back) == rest,
    decreases back.len(),
{
    if back.len() > 0 {
        assert(back[back.len() - 1] == '.');
        assert((rest + back).drop_last() =~= rest + back.drop_last());
        back_dots_go(rest, back.drop_last());
    } else {
        assert(rest + back =~= rest);
    }
}

/// A fragment loses the dots at its ends and keeps the rest, character by character; one that
/// names a device, or has nothing left, is told from it by what is put in front.
pub proof fn fragments_lose_their_outer_dots(
    fragment: &str,
    front: Seq<char>,
    core: Seq<char>,
    back: Seq<char>,
    r: String,
)
    requires
        call_ensures(sanitize, (fragment,), r),
        fragment@ == front + core + back,
        dots(front),
        dots(back),
        core.len() > 0 ==> core[0] != '.' && core.last() != '.',
        core.len() == 0 ==> back.len() == 0,
    ensures
        core.len() > 0 && !is_device(flattened(core)) ==> r@ == flattened(core),
        core.len() > 0 && is_device(flattened(core)) ==> r@ == seq!['x', '_'] + flattened(core),
        core.len() == 0 ==> r@ == seq!['x', '_'],
{
    let flat = flattened(core);
    assert(flattened(front) =~= front);
    assert(flattened(back) =~= back);
    assert(flattened(fragment@) =~= front + (flat + back));
    front_dots_go(front, flat + back);
    back_dots_go(flat, back);
    if core.len() == 0 {
        assert(flat + back =~= seq![]);
        assert(seq!['x', '_'] + bare(fragment@) =~= seq!['x', '_']);
    }
}

/// A name is a device's whatever the case of its letters, and whatever follows a dot.
pub proof fn devices_are_told_by_their_stem(a: Seq<char>, b: Seq<char>, rest: Seq<char>)
    requires
        lower_text(a) == lower_text(b),
        rest.len() > 0,
        rest[0] == '.',
    ensures
        is_device_name(a) == is_device_name(b),
        is_device(a + rest) == is_device(a),
{
    stem_ends_at_a_dot(a, rest);
}

} // verus!
