use vstd::prelude::*;

verus! {

/// `p` names an absolute path (it starts at the root directory).
pub open spec fn is_absolute(p: Seq<char>) -> bool {
    p.len() > 0 && p[0] == '/'
}

/// The path obtained by appending `part` to `base` as a further component:
/// an absolute `part` replaces `base`; otherwise a separator is inserted
/// unless `base` is empty or already ends with one.
pub open spec fn joined(base: Seq<char>, part: Seq<char>) -> Seq<char> {
    if is_absolute(part) {
        part
    } else if base.len() == 0 || base.last() == '/' {
        base + part
    } else {
        base + seq!['/'] + part
    }
}

/// `needle` occurs somewhere in `hay` as a contiguous run of characters.
pub open spec fn has_infix(hay: Seq<char>, needle: Seq<char>) -> bool {
    exists|i: int|
        0 <= i && i + needle.len() <= hay.len() && #[trigger] hay.subrange(i, i + needle.len())
            == needle
}

/// A line-ending character.
pub open spec fn is_line_end(c: char) -> bool {
    c == '\r' || c == '\n'
}

/// `s` with every trailing carriage return and line feed removed.
pub open spec fn without_line_endings(s: Seq<char>) -> Seq<char>
    decreases s.len(),
{
    if s.len() > 0 && is_line_end(s.last()) {
        without_line_endings(s.drop_last())
    } else {
        s
    }
}

/// `n` space characters.
pub open spec fn spaces(n: nat) -> Seq<char> {
    Seq::new(n, |i: int| ' ')
}

/// `s` left-aligned in a field of `width` characters: spaces are appended
/// until the field is full; a longer `s` is left as it is.
pub open spec fn left_aligned(s: Seq<char>, width: nat) -> Seq<char> {
    if s.len() < width {
        s + spaces((width - s.len()) as nat)
    } else {
        s
    }
}

/// Whether a character has the Unicode `White_Space` property (the test
/// `char::is_whitespace` makes): tab through carriage return, space, next
/// line, no-break space, ogham space mark, the en quad through hair space,
/// line and paragraph separators, narrow no-break space, medium mathematical
/// space and ideographic space.
pub open spec fn white_space(c: char) -> bool {
    let v = c as u32;
    (0x09 <= v <= 0x0d) || v == 0x20 || v == 0x85 || v == 0xa0 || v == 0x1680 || (0x2000 <= v
        <= 0x200a) || v == 0x2028 || v == 0x2029 || v == 0x202f || v == 0x205f || v == 0x3000
}

/// The lowercase form of a string as `str::to_lowercase` computes it.
pub uninterp spec fn lowercase(s: Seq<char>) -> Seq<char>;

/// Number of leading white-space characters of `s`.
pub open spec fn leading_space_len(s: Seq<char>) -> nat
    decreases s.len(),
{
    if s.len() > 0 && white_space(s[0]) {
        1 + leading_space_len(s.drop_first())
    } else {
        0
    }
}

/// `s` with its trailing white space removed.
pub open spec fn trim_end_spec(s: Seq<char>) -> Seq<char>
    decreases s.len(),
{
    if s.len() > 0 && white_space(s.last()) {
        trim_end_spec(s.drop_last())
    } else {
        s
    }
}

/// `s` with leading and trailing white space removed.
pub open spec fn trimmed(s: Seq<char>) -> Seq<char> {
    trim_end_spec(s.skip(leading_space_len(s) as int))
}

/// Whether `c` is white space (as `char::is_whitespace`).
pub fn is_whitespace(c: char) -> (r: bool)
    ensures
        r == white_space(c),
{
    let v = c as u32;
    (0x09 <= v && v <= 0x0d) || v == 0x20 || v == 0x85 || v == 0xa0 || v == 0x1680 || (0x2000 <= v
        && v <= 0x200a) || v == 0x2028 || v == 0x2029 || v == 0x202f || v == 0x205f || v == 0x3000
}

/// `str::to_lowercase`: the result is named `lowercase` of the argument.
#[verifier::external_body]
pub(crate) fn to_lower(s: &str) -> (r: String)
    ensures
        r@ == lowercase(s@),
{
    s.to_lowercase()
}

/// `String::push`: appends one character.
#[verifier::external_body]
pub(crate) fn push_char(s: &mut String, c: char)
    ensures
        final(s)@ == old(s)@.push(c),
{
    s.push(c)
}

/// The view of an optional string.
pub open spec fn opt_view(o: Option<String>) -> Option<Seq<char>> {
    match o {
        Some(s) => Some(s@),
        None => None,
    }
}

/// The views of a sequence of strings.
pub open spec fn views(v: Seq<String>) -> Seq<Seq<char>> {
    v.map_values(|s: String| s@)
}

/// Appends a copy of `s` to the list `out`.
pub fn push_text(out: &mut Vec<String>, s: &str)
    ensures
        views(final(out)@) == views(old(out)@).push(s@),
{
    let ghost before = out@;
    let t = owned(s);
    out.push(t);
    assert(out@ == before.push(t));
    assert(views(out@) =~= views(before).push(s@));
}

/// Appends copies of all strings of `items` to `out`, in order.
pub fn push_all(out: &mut Vec<String>, items: &Vec<String>)
    ensures
        views(final(out)@) == views(old(out)@) + views(items@),
{
    let ghost start = views(out@);
    let mut i: usize = 0;
    while i < items.len()
        invariant
            i <= items.len(),
            views(out@) == start + views(items@).take(i as int),
        decreases items.len() - i,
    {
        push_text(out, items[i].as_str());
        assert(views(items@).take(i + 1) =~= views(items@).take(i as int).push(items@[i as int]@));
        i = i + 1;
    }
    assert(views(items@).take(items.len() as int) =~= views(items@));
}

/// The characters of `s`, in order.
pub fn chars_of(s: &str) -> (r: Vec<char>)
    ensures
        r@ == s@,
{
    let mut out: Vec<char> = Vec::new();
    for c in it: s.chars()
        invariant
            out@ == it.seq().take(it.index() as int),
            it.seq() == s@,
    {
        out.push(c);
    }
    out
}

/// A string made of `v[from..to]`.
fn string_of_range(v: &Vec<char>, from: usize, to: usize) -> (r: String)
    requires
        from <= to <= v.len(),
    ensures
        r@ == v@.subrange(from as int, to as int),
{
    let mut out = String::new();
    let mut i = from;
    while i < to
        invariant
            from <= i <= to <= v.len(),
            out@ == v@.subrange(from as int, i as int),
        decreases to - i,
    {
        push_char(&mut out, v[i]);
        assert(v@.subrange(from as int, i + 1) == v@.subrange(from as int, i as int).push(v@[i as int]));
        i = i + 1;
    }
    out
}

/// A copy of `s` as an owned string.
pub fn owned(s: &str) -> (r: String)
    ensures
        r@ == s@,
{
    let mut out = String::new();
    out.append(s);
    out
}

/// The concatenation of `a` and `b`.
pub fn concat2(a: &str, b: &str) -> (r: String)
    ensures
        r@ == a@ + b@,
{
    let mut out = owned(a);
    out.append(b);
    out
}

/// The concatenation of `a`, `b` and `c`.
pub fn concat3(a: &str, b: &str, c: &str) -> (r: String)
    ensures
        r@ == a@ + b@ + c@,
{
    let mut out = concat2(a, b);
    out.append(c);
    out
}

/// Whether `s` starts with the root directory.
pub fn path_is_absolute(s: &str) -> (r: bool)
    ensures
        r == is_absolute(s@),
{
    let mut it = s.chars();
    match it.next() {
        Some(c) => c == '/',
        None => false,
    }
}

/// Whether the last character of `s` is `c`.
fn ends_with_char(s: &str, c: char) -> (r: bool)
    ensures
        r == (s@.len() > 0 && s@.last() == c),
{
    let v = chars_of(s);
    v.len() > 0 && v[v.len() - 1] == c
}

/// Appends `part` to the path `base` as a further component.
pub fn join_path(base: &str, part: &str) -> (r: String)
    ensures
        r@ == joined(base@, part@),
{
    if path_is_absolute(part) {
        owned(part)
    } else if base.is_empty() || ends_with_char(base, '/') {
        concat2(base, part)
    } else {
        proof {
            reveal_strlit("/");
        }
        concat3(base, "/", part)
    }
}

/// Whether `v[at..at + n.len()]` equals `n`.
fn matches_at(v: &Vec<char>, n: &Vec<char>, at: usize) -> (r: bool)
    requires
        at + n.len() <= v.len(),
    ensures
        r == (v@.subrange(at as int, at + n.len()) == n@),
{
    let mut k: usize = 0;
    while k < n.len()
        invariant
            at + n.len() <= v.len(),
            k <= n.len(),
            forall|j: int| 0 <= j < k ==> v@[at + j] == n@[j],
        decreases n.len() - k,
    {
        if v[at + k] != n[k] {
            assert(v@.subrange(at as int, at + n.len())[k as int] != n@[k as int]);
            return false;
        }
        k = k + 1;
    }
    assert(v@.subrange(at as int, at + n.len()) =~= n@);
    true
}

/// Whether `needle` occurs in `hay` (as `str::contains` with a string pattern).
pub fn contains(hay: &str, needle: &str) -> (r: bool)
    ensures
        r == has_infix(hay@, needle@),
{
    let h = chars_of(hay);
    let n = chars_of(needle);
    if n.len() > h.len() {
        return false;
    }
    let last = h.len() - n.len();
    let mut i: usize = 0;
    while i < last
        invariant
            h@ == hay@,
            n@ == needle@,
            last == h.len() - n.len(),
            n.len() <= h.len(),
            i <= last,
            forall|j: int| 0 <= j < i ==> #[trigger] h@.subrange(j, j + n.len()) != n@,
        decreases last - i,
    {
        if matches_at(&h, &n, i) {
            return true;
        }
        i = i + 1;
    }
    matches_at(&h, &n, last)
}

proof fn lemma_without_line_endings_prefix(s: Seq<char>, k: int)
    requires
        0 <= k <= s.len(),
        forall|j: int| k <= j < s.len() ==> is_line_end(#[trigger] s[j]),
    ensures
        without_line_endings(s) == without_line_endings(s.subrange(0, k)),
    decreases s.len() - k,
{
    if k < s.len() {
        assert(s.drop_last() == s.subrange(0, s.len() - 1));
        lemma_without_line_endings_prefix(s.drop_last(), k);
        assert(s.drop_last().subrange(0, k) == s.subrange(0, k));
    } else {
        assert(s.subrange(0, k) == s);
    }
}

/// `s` with all trailing `'\r'` and `'\n'` characters removed
/// (as `trim_end_matches(&['\r', '\n'][..])`).
pub fn strip_line_endings(s: &str) -> (r: String)
    ensures
        r@ == without_line_endings(s@),
{
    let v = chars_of(s);
    let mut k = v.len();
    while k > 0 && (v[k - 1] == '\r' || v[k - 1] == '\n')
        invariant
            v@ == s@,
            k <= v.len(),
            forall|j: int| k <= j < v.len() ==> is_line_end(#[trigger] v@[j]),
        decreases k,
    {
        k = k - 1;
    }
    proof {
        lemma_without_line_endings_prefix(s@, k as int);
        let p = s@.subrange(0, k as int);
        if p.len() > 0 {
            assert(p.last() == s@[k - 1]);
        }
    }
    string_of_range(&v, 0, k)
}

/// `s` left-aligned in a field of `width` characters (as `{:<width}`).
pub fn pad_right(s: &str, width: usize) -> (r: String)
    ensures
        r@ == left_aligned(s@, width as nat),
{
    let n = chars_of(s).len();
    let mut out = owned(s);
    let mut k = n;
    while k < width
        invariant
            n == s@.len(),
            n <= k,
            k <= width || k == n,
            out@ == s@ + spaces((k - n) as nat),
        decreases width - k,
    {
        push_char(&mut out, ' ');
        assert(spaces((k + 1 - n) as nat) == spaces((k - n) as nat).push(' '));
        k = k + 1;
    }
    proof {
        if n >= width {
            assert(spaces(0) =~= Seq::<char>::empty());
            assert(out@ =~= s@);
        }
    }
    out
}

proof fn lemma_leading_space_len(s: Seq<char>, k: int)
    requires
        0 <= k <= s.len(),
        forall|j: int| 0 <= j < k ==> white_space(#[trigger] s[j]),
        k == s.len() || !white_space(s[k]),
    ensures
        leading_space_len(s) == k,
    decreases k,
{
    if k > 0 {
        lemma_leading_space_len(s.drop_first(), k - 1);
    }
}

proof fn lemma_trim_end_prefix(s: Seq<char>, k: int)
    requires
        0 <= k <= s.len(),
        forall|j: int| k <= j < s.len() ==> white_space(#[trigger] s[j]),
    ensures
        trim_end_spec(s) == trim_end_spec(s.subrange(0, k)),
    decreases s.len() - k,
{
    if k < s.len() {
        lemma_trim_end_prefix(s.drop_last(), k);
        assert(s.drop_last().subrange(0, k) == s.subrange(0, k));
    } else {
        assert(s.subrange(0, k) == s);
    }
}

/// `s` with leading and trailing white space removed (as `str::trim`).
pub fn trim(s: &str) -> (r: String)
    ensures
        r@ == trimmed(s@),
{
    let v = chars_of(s);
    let mut a: usize = 0;
    while a < v.len() && is_whitespace(v[a])
        invariant
            v@ == s@,
            a <= v.len(),
            forall|j: int| 0 <= j < a ==> white_space(#[trigger] v@[j]),
        decreases v.len() - a,
    {
        a = a + 1;
    }
    let mut b = v.len();
    while b > a && is_whitespace(v[b - 1])
        invariant
            v@ == s@,
            a <= b <= v.len(),
            forall|j: int| b <= j < v.len() ==> white_space(#[trigger] v@[j]),
        decreases b,
    {
        b = b - 1;
    }
    proof {
        lemma_leading_space_len(s@, a as int);
        let rest = s@.skip(a as int);
        assert forall|j: int| b - a <= j < rest.len() implies white_space(#[trigger] rest[j]) by {
            assert(rest[j] == s@[j + a]);
        }
        lemma_trim_end_prefix(rest, b - a);
        assert(rest.subrange(0, b - a) == s@.subrange(a as int, b as int));
        let p = s@.subrange(a as int, b as int);
        if p.len() > 0 {
            assert(p.last() == s@[b - 1]);
        }
    }
    string_of_range(&v, a, b)
}

/// Stripping line endings leaves a prefix of the text that does not end in
/// a line ending, everything removed was a line ending, and stripping twice
/// changes nothing more.
pub proof fn lemma_line_endings_stripped(s: Seq<char>)
    ensures
        without_line_endings(s).len() <= s.len(),
        without_line_endings(s) == s.subrange(0, without_line_endings(s).len() as int),
        forall|j: int|
            without_line_endings(s).len() <= j < s.len() ==> is_line_end(#[trigger] s[j]),
        without_line_endings(s).len() > 0 ==> !is_line_end(without_line_endings(s).last()),
        without_line_endings(without_line_endings(s)) == without_line_endings(s),
    decreases s.len(),
{
    if s.len() > 0 && is_line_end(s.last()) {
        let t = s.drop_last();
        lemma_line_endings_stripped(t);
        let w = without_line_endings(t);
        assert(t.subrange(0, w.len() as int) == s.subrange(0, w.len() as int));
        assert forall|j: int| w.len() <= j < s.len() implies is_line_end(#[trigger] s[j]) by {
            if j < t.len() {
                assert(s[j] == t[j]);
            }
        }
    } else {
        assert(s.subrange(0, s.len() as int) == s);
    }
}


/// Text made only of white space trims to nothing.
pub proof fn lemma_blank_trims_to_empty(s: Seq<char>)
    requires
        forall|i: int| 0 <= i < s.len() ==> white_space(#[trigger] s[i]),
    ensures
        trimmed(s).len() == 0,
{
    lemma_leading_space_len(s, s.len() as int);
    assert(s.skip(s.len() as int) =~= Seq::<char>::empty());
}

} // verus!
