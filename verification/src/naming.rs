//! Instance and bridge names.

use vstd::prelude::*;
use crate::path::{components, is_under_or_eq, path_components, under_or_eq};
use crate::strings::{
    chars_of, copy_chars, digit, is_ascii_alnum, push_chars, push_str, slice_chars, string_of,
};

verus! {

// ---------------------------------------------------------------------------
// UUID text
// ---------------------------------------------------------------------------

/// `16^k`.
pub open spec fn pow16(k: nat) -> nat
    decreases k,
{
    if k == 0 {
        1
    } else {
        16 * pow16((k - 1) as nat)
    }
}

/// The `i`-th hexadecimal digit (from the most significant) of a 128-bit value.
pub open spec fn nibble(id: u128, i: nat) -> nat {
    ((id as nat) / pow16((31 - i) as nat)) % 16
}

/// Lowercase hexadecimal digit character for `d < 16`.
pub open spec fn hex_lower(d: nat) -> char {
    if d < 10 {
        digit(d)
    } else if d == 10 {
        'a'
    } else if d == 11 {
        'b'
    } else if d == 12 {
        'c'
    } else if d == 13 {
        'd'
    } else if d == 14 {
        'e'
    } else {
        'f'
    }
}

/// Number of hyphens before position `p` of the hyphenated form.
pub open spec fn hyphens_before(p: int) -> int {
    if p < 8 {
        0
    } else if p < 13 {
        1
    } else if p < 18 {
        2
    } else if p < 23 {
        3
    } else {
        4
    }
}

/// The hyphenated lowercase text of a UUID held as its 128-bit big-endian
/// value: 32 hex digits grouped 8-4-4-4-12.
pub open spec fn uuid_text(id: u128) -> Seq<char> {
    Seq::new(
        36,
        |p: int|
            if p == 8 || p == 13 || p == 18 || p == 23 {
                '-'
            } else {
                hex_lower(nibble(id, (p - hyphens_before(p)) as nat))
            },
    )
}

/// The first eight characters of a UUID's text (its first 32 bits in hex).
pub open spec fn uuid8(id: u128) -> Seq<char> {
    uuid_text(id).take(8)
}

/// `Uuid::to_string` on the UUID with big-endian value `id`: the hyphenated
/// lowercase form, as the `uuid` crate's `Display` prints it.
#[verifier::external_body]
fn uuid_string(id: u128) -> (r: String)
    ensures
        r@ == uuid_text(id),
{
    uuid::Uuid::from_u128(id).to_string()
}

/// `Uuid::new_v4`, as its 128-bit big-endian value. Random: nothing is
/// promised of the value.
#[verifier::external_body]
pub(crate) fn random_uuid() -> (r: u128) {
    uuid::Uuid::new_v4().as_u128()
}

/// First eight characters of the UUID's text.
pub fn uuid8_chars(id: u128) -> (r: Vec<char>)
    ensures
        r@ == uuid8(id),
{
    let s = uuid_string(id);
    let v = chars_of(s.as_str());
    slice_chars(&v, 0, 8)
}

// ---------------------------------------------------------------------------
// Image prefix
// ---------------------------------------------------------------------------

/// The text after the last `/` or `:` (all of `s` if there is none).
pub open spec fn last_segment(s: Seq<char>) -> Seq<char>
    decreases s.len(),
{
    if s.len() == 0 {
        s
    } else if s.last() == '/' || s.last() == ':' {
        Seq::<char>::empty()
    } else {
        last_segment(s.drop_last()).push(s.last())
    }
}

/// The ASCII letters and digits of `s`, in order.
pub open spec fn alnum_only(s: Seq<char>) -> Seq<char>
    decreases s.len(),
{
    if s.len() == 0 {
        s
    } else if is_ascii_alnum(s.last()) {
        alnum_only(s.drop_last()).push(s.last())
    } else {
        alnum_only(s.drop_last())
    }
}

/// Short, LXD-safe prefix derived from an image name.
pub open spec fn image_prefix(image: Seq<char>) -> Seq<char> {
    let p = alnum_only(last_segment(image));
    if p.len() == 0 {
        seq!['i', 'n', 's', 't']
    } else if p.len() > 20 {
        p.take(20)
    } else {
        p
    }
}

/// Every character of `alnum_only(s)` is an ASCII letter or digit.
pub proof fn lemma_alnum_only(s: Seq<char>)
    ensures
        forall|i: int| 0 <= i < alnum_only(s).len() ==> is_ascii_alnum(#[trigger] alnum_only(s)[i]),
        alnum_only(s).len() <= s.len(),
    decreases s.len(),
{
    if s.len() > 0 {
        lemma_alnum_only(s.drop_last());
    }
}

fn sanitized_image_prefix_chars(image: &Vec<char>) -> (r: Vec<char>)
    ensures
        r@ == image_prefix(image@),
{
    // Start of the last segment.
    let mut start: usize = image.len();
    assert(image@.skip(start as int) =~= Seq::<char>::empty());
    assert(image@.take(start as int) =~= image@);
    assert(last_segment(image@) == last_segment(image@.take(start as int)) + image@.skip(start as int));
    while start > 0 && image[start - 1] != '/' && image[start - 1] != ':'
        invariant
            start <= image.len(),
            last_segment(image@) == last_segment(image@.take(start as int)) + image@.skip(
                start as int,
            ),
        decreases start,
    {
        let ghost t = image@.take(start as int);
        assert(t.drop_last() == image@.take(start - 1));
        assert(image@.skip(start - 1) == seq![t.last()] + image@.skip(start as int));
        assert(last_segment(t) == last_segment(t.drop_last()).push(t.last()));
        assert(last_segment(t.drop_last()).push(t.last()) + image@.skip(start as int)
            =~= last_segment(t.drop_last()) + image@.skip(start - 1));
        start = start - 1;
    }
    assert(last_segment(image@.take(start as int)) =~= Seq::<char>::empty()) by {
        let t = image@.take(start as int);
        if start > 0 {
            assert(t.last() == image@[start - 1]);
        } else {
            assert(t.len() == 0);
        }
    }
    assert(last_segment(image@) =~= image@.skip(start as int));
    let seg = slice_chars(image, start, image.len());
    // Keep only ASCII letters and digits.
    let mut p: Vec<char> = Vec::new();
    let mut i: usize = 0;
    while i < seg.len()
        invariant
            i <= seg.len(),
            p@ == alnum_only(seg@.take(i as int)),
        decreases seg.len() - i,
    {
        assert(seg@.take(i + 1).drop_last() == seg@.take(i as int));
        let c = seg[i];
        if ('0' <= c && c <= '9') || ('a' <= c && c <= 'z') || ('A' <= c && c <= 'Z') {
            p.push(c);
        }
        i = i + 1;
    }
    assert(seg@.take(seg.len() as int) == seg@);
    if p.len() == 0 {
        let mut r = Vec::new();
        r.push('i');
        r.push('n');
        r.push('s');
        r.push('t');
        assert(r@ =~= seq!['i', 'n', 's', 't']);
        r
    } else if p.len() > 20 {
        slice_chars(&p, 0, 20)
    } else {
        p
    }
}

/// Derive a short, LXD-safe prefix from an image name.
///
/// Takes the last component after the final `:` or `/`, keeps only
/// alphanumeric characters, and truncates to 20 characters.
pub fn sanitized_image_prefix(image: &str) -> (r: String)
    ensures
        r@ == image_prefix(image@),
{
    let v = sanitized_image_prefix_chars(&chars_of(image));
    string_of(&v)
}

// ---------------------------------------------------------------------------
// Path fragment
// ---------------------------------------------------------------------------

/// Components joined with `/`, the root written as a leading `/`.
pub open spec fn render_components(c: Seq<Seq<char>>) -> Seq<char>
    decreases c.len(),
{
    if c.len() == 0 {
        Seq::<char>::empty()
    } else if c.len() == 1 {
        c[0]
    } else {
        render_components(c.drop_last()) + seq!['/'] + c.last()
    }
}

/// `s` without leading `ch` characters (`str::trim_start_matches`).
pub open spec fn trim_start_char(s: Seq<char>, ch: char) -> Seq<char>
    decreases s.len(),
{
    if s.len() > 0 && s[0] == ch {
        trim_start_char(s.drop_first(), ch)
    } else {
        s
    }
}

/// `s` without trailing `ch` characters.
pub open spec fn trim_end_char(s: Seq<char>, ch: char) -> Seq<char>
    decreases s.len(),
{
    if s.len() > 0 && s.last() == ch {
        trim_end_char(s.drop_last(), ch)
    } else {
        s
    }
}

/// The text that names the working directory: `home-<rest>` below `home`,
/// else the path without its leading slashes.
pub open spec fn path_text(cwd: Seq<char>, home: Seq<char>) -> Seq<char> {
    if under_or_eq(cwd, home) {
        seq!['h', 'o', 'm', 'e', '-'] + render_components(
            components(cwd).skip(components(home).len() as int),
        )
    } else {
        trim_start_char(cwd, '/')
    }
}

/// Every character that is not an ASCII letter or digit becomes `-`.
pub open spec fn dashify(s: Seq<char>) -> Seq<char> {
    Seq::new(s.len(), |i: int| if is_ascii_alnum(s[i]) { s[i] } else { '-' })
}

/// Runs of `-` collapsed to one, with no leading `-` (left-to-right scan:
/// a `-` is written only after a non-`-` and when something was written).
pub open spec fn squash(s: Seq<char>) -> Seq<char>
    decreases s.len(),
{
    if s.len() == 0 {
        s
    } else {
        let init = s.drop_last();
        let o = squash(init);
        if s.last() == '-' {
            if !(init.len() > 0 && init.last() == '-') && o.len() > 0 {
                o.push('-')
            } else {
                o
            }
        } else {
            o.push(s.last())
        }
    }
}

/// The path fragment of an instance name, before truncation.
pub open spec fn path_fragment(cwd: Seq<char>, home: Seq<char>) -> Seq<char> {
    trim_end_char(trim_start_char(squash(dashify(path_text(cwd, home))), '-'), '-')
}

/// Longest path fragment that fits: 63 minus the prefix, two hyphens and
/// the eight UUID characters (and the separator before them).
pub open spec fn path_budget(prefix_len: nat) -> nat {
    if prefix_len + 11 >= 63 {
        0
    } else {
        (63 - (prefix_len + 11)) as nat
    }
}

/// The fragment cut to its last `max` characters, leading `-` removed.
pub open spec fn fit_fragment(f: Seq<char>, max: nat) -> Seq<char> {
    if f.len() > max {
        trim_start_char(f.skip(f.len() - max), '-')
    } else {
        f
    }
}

/// `<image-prefix>-<path-fragment>-<uuid8>`.
pub open spec fn instance_name_text(cwd: Seq<char>, home: Seq<char>, image: Seq<char>, id: u128) -> Seq<
    char,
> {
    let prefix = image_prefix(image);
    let frag = fit_fragment(path_fragment(cwd, home), path_budget(prefix.len()));
    prefix + seq!['-'] + frag + seq!['-'] + uuid8(id)
}

/// `<prefix6>-<uuid8>`.
pub open spec fn bridge_name_text(image: Seq<char>, id: u128) -> Seq<char> {
    let p = image_prefix(image);
    let p6 = if p.len() > 6 {
        p.take(6)
    } else {
        p
    };
    p6 + seq!['-'] + uuid8(id)
}

fn render_components_chars(c: &Vec<Vec<char>>, from: usize) -> (r: Vec<char>)
    requires
        from <= c.len(),
    ensures
        r@ == render_components(Seq::new((c.len() - from) as nat, |i: int| c@[from + i]@)),
{
    let ghost cs = Seq::new((c.len() - from) as nat, |i: int| c@[from + i]@);
    let mut r: Vec<char> = Vec::new();
    let mut i: usize = from;
    while i < c.len()
        invariant
            from <= i <= c.len(),
            cs == Seq::new((c.len() - from) as nat, |k: int| c@[from + k]@),
            r@ == render_components(cs.take(i - from)),
        decreases c.len() - i,
    {
        let ghost t = cs.take(i + 1 - from);
        assert(t.drop_last() =~= cs.take(i - from));
        assert(t.last() == c@[i as int]@);
        if i > from {
            r.push('/');
        } else {
            assert(cs.take(0) =~= Seq::<Seq<char>>::empty());
        }
        push_chars(&mut r, &c[i]);
        i = i + 1;
    }
    assert(cs.take(c.len() - from) =~= cs);
    r
}

fn trim_start_char_chars(s: &Vec<char>, ch: char) -> (r: Vec<char>)
    ensures
        r@ == trim_start_char(s@, ch),
{
    let mut i: usize = 0;
    assert(s@.skip(0) == s@);
    while i < s.len() && s[i] == ch
        invariant
            i <= s.len(),
            trim_start_char(s@, ch) == trim_start_char(s@.skip(i as int), ch),
        decreases s.len() - i,
    {
        assert(s@.skip(i as int).drop_first() == s@.skip(i + 1));
        i = i + 1;
    }
    slice_chars(s, i, s.len())
}

fn trim_end_char_chars(s: &Vec<char>, ch: char) -> (r: Vec<char>)
    ensures
        r@ == trim_end_char(s@, ch),
{
    let mut j: usize = s.len();
    assert(s@.take(j as int) == s@);
    while j > 0 && s[j - 1] == ch
        invariant
            j <= s.len(),
            trim_end_char(s@, ch) == trim_end_char(s@.take(j as int), ch),
        decreases j,
    {
        assert(s@.take(j as int).drop_last() == s@.take(j - 1));
        j = j - 1;
    }
    slice_chars(s, 0, j)
}

fn path_text_chars(cwd: &str, home: &str) -> (r: Vec<char>)
    ensures
        r@ == path_text(cwd@, home@),
{
    if is_under_or_eq(cwd, home) {
        let cc = path_components(&chars_of(cwd));
        let hc = path_components(&chars_of(home));
        let mut r = Vec::new();
        push_str(&mut r, "home-");
        proof {
            reveal_strlit("home-");
        }
        assert(r@ =~= seq!['h', 'o', 'm', 'e', '-']);
        proof {
            let a = components(cwd@);
            let b = components(home@);
            assert(hc@.len() <= cc@.len());
        }
        let rest = render_components_chars(&cc, hc.len());
        proof {
            let a = components(cwd@);
            let b = components(home@);
            assert(Seq::new((cc.len() - hc.len()) as nat, |i: int| cc@[hc.len() + i]@) =~= a.skip(
                b.len() as int,
            ));
        }
        push_chars(&mut r, &rest);
        r
    } else {
        trim_start_char_chars(&chars_of(cwd), '/')
    }
}

fn squash_chars(s: &Vec<char>) -> (r: Vec<char>)
    ensures
        r@ == squash(s@),
{
    let mut out: Vec<char> = Vec::new();
    let mut prev_hyphen = false;
    let mut i: usize = 0;
    while i < s.len()
        invariant
            i <= s.len(),
            out@ == squash(s@.take(i as int)),
            prev_hyphen == (i > 0 && s@[i - 1] == '-'),
        decreases s.len() - i,
    {
        let ghost t = s@.take(i + 1);
        assert(t.drop_last() =~= s@.take(i as int));
        assert(t.last() == s@[i as int]);
        let c = s[i];
        if c == '-' {
            if !prev_hyphen && out.len() > 0 {
                out.push('-');
            }
            prev_hyphen = true;
        } else {
            out.push(c);
            prev_hyphen = false;
        }
        i = i + 1;
    }
    assert(s@.take(s.len() as int) == s@);
    out
}

/// Build an LXD-safe instance name from the working directory, image, and a
/// pre-generated UUID (given as its 128-bit value).
///
/// Format: `<image-prefix>-<path-fragment>-<uuid8>`. Max 63 characters.
pub fn instance_name(cwd: &str, home: &str, image: &str, uuid: u128) -> (r: String)
    ensures
        r@ == instance_name_text(cwd@, home@, image@, uuid),
{
    let prefix = sanitized_image_prefix_chars(&chars_of(image));
    let text = path_text_chars(cwd, home);
    let mut dashed: Vec<char> = Vec::new();
    let mut i: usize = 0;
    while i < text.len()
        invariant
            i <= text.len(),
            dashed@ == dashify(text@).take(i as int),
        decreases text.len() - i,
    {
        let c = text[i];
        if ('0' <= c && c <= '9') || ('a' <= c && c <= 'z') || ('A' <= c && c <= 'Z') {
            dashed.push(c);
        } else {
            dashed.push('-');
        }
        assert(dashed@ =~= dashify(text@).take(i + 1));
        i = i + 1;
    }
    assert(dashed@ =~= dashify(text@));
    let squashed = squash_chars(&dashed);
    let trimmed = trim_end_char_chars(&trim_start_char_chars(&squashed, '-'), '-');
    proof {
        lemma_alnum_only(last_segment(image@));
    }
    let budget: usize = if prefix.len() + 11 >= 63 {
        0
    } else {
        63 - (prefix.len() + 11)
    };
    let frag = if trimmed.len() > budget {
        let tail = slice_chars(&trimmed, trimmed.len() - budget, trimmed.len());
        assert(tail@ == trimmed@.skip(trimmed.len() - budget));
        trim_start_char_chars(&tail, '-')
    } else {
        trimmed
    };
    let mut out = copy_chars(&prefix);
    out.push('-');
    push_chars(&mut out, &frag);
    out.push('-');
    let u = uuid8_chars(uuid);
    push_chars(&mut out, &u);
    string_of(&out)
}

/// Build a short bridge name (max 15 characters) from the image name and
/// instance UUID.
///
/// Format: `<prefix6>-<uuid8>`. Linux bridge names are limited to 15 chars.
pub fn bridge_name(image: &str, uuid: u128) -> (r: String)
    ensures
        r@ == bridge_name_text(image@, uuid),
{
    let prefix = sanitized_image_prefix_chars(&chars_of(image));
    let mut out = if prefix.len() > 6 {
        slice_chars(&prefix, 0, 6)
    } else {
        prefix
    };
    out.push('-');
    let u = uuid8_chars(uuid);
    push_chars(&mut out, &u);
    string_of(&out)
}

/// Instance names never exceed 63 characters.
pub proof fn law_instance_name_length(cwd: Seq<char>, home: Seq<char>, image: Seq<char>, id: u128)
    ensures
        instance_name_text(cwd, home, image, id).len() <= 63,
{
    let prefix = image_prefix(image);
    lemma_alnum_only(last_segment(image));
    let f = path_fragment(cwd, home);
    let b = path_budget(prefix.len());
    lemma_trim_start_char_len(f.skip(f.len() - b), '-');
    assert(prefix.len() <= 20);
}

/// Bridge names are at most 15 characters (the Linux limit).
pub proof fn law_bridge_name_length(image: Seq<char>, id: u128)
    ensures
        bridge_name_text(image, id).len() <= 15,
{
}

proof fn lemma_trim_start_char_len(s: Seq<char>, ch: char)
    ensures
        trim_start_char(s, ch).len() <= s.len(),
    decreases s.len(),
{
    if s.len() > 0 && s[0] == ch {
        lemma_trim_start_char_len(s.drop_first(), ch);
    }
}

} // verus!
