//! Plain-text extraction and character-level string utilities.
//!
//! Page bodies arrive as HTML fragments; searching and snippet extraction
//! work on plain text, one `char` per Unicode scalar value, so multi-byte
//! text is never split mid-codepoint.

use vstd::prelude::*;

verus! {

/// Whitespace characters that separate words in extracted text: the Unicode
/// `White_Space` set — the ASCII whitespace characters, next line, no-break
/// space, the Ogham space mark, the typographic spaces U+2000 through
/// U+200A, the line and paragraph separators, narrow no-break space, medium
/// mathematical space, and ideographic space.
pub open spec fn is_space_char(c: char) -> bool {
    c == ' ' || c == '\t' || c == '\n' || c == '\r' || c == '\u{000B}' || c == '\u{000C}' || c
        == '\u{0085}' || c == '\u{00A0}' || c == '\u{1680}' || (0x2000 <= c as u32 && c as u32
        <= 0x200A) || c == '\u{2028}' || c == '\u{2029}' || c == '\u{202F}' || c == '\u{205F}' || c
        == '\u{3000}'
}

pub fn space_char(c: char) -> (r: bool)
    ensures
        r == is_space_char(c),
{
    c == ' ' || c == '\t' || c == '\n' || c == '\r' || c == '\u{000B}' || c == '\u{000C}' || c
        == '\u{0085}' || c == '\u{00A0}' || c == '\u{1680}' || (0x2000 <= c as u32 && c as u32
        <= 0x200A) || c == '\u{2028}' || c == '\u{2029}' || c == '\u{202F}' || c == '\u{205F}' || c
        == '\u{3000}'
}

/// The characters of a string, one per Unicode scalar value.
pub fn chars_of(s: &str) -> (r: Vec<char>)
    ensures
        r@ == s@,
{
    let n = s.unicode_len();
    let mut r: Vec<char> = Vec::new();
    let mut i: usize = 0;
    while i < n
        invariant
            n == s@.len(),
            i <= n,
            r@ == s@.subrange(0, i as int),
        decreases n - i,
    {
        r.push(s.get_char(i));
        i = i + 1;
    }
    assert(r@ =~= s@);
    r
}

/// Index of the first occurrence of `c` at or after `i`, if any.
pub open spec fn find_char(s: Seq<char>, c: char, i: int) -> Option<int>
    decreases s.len() - i when 0 <= i <= s.len()
{
    if i >= s.len() {
        None
    } else if s[i] == c {
        Some(i)
    } else {
        find_char(s, c, i + 1)
    }
}

/// Position of the first occurrence of `c` at or after `from`.
pub fn index_of_char(v: &Vec<char>, c: char, from: usize) -> (r: Option<usize>)
    requires
        from <= v@.len(),
    ensures
        match r {
            Some(j) => find_char(v@, c, from as int) == Some(j as int) && from <= j < v@.len(),
            None => find_char(v@, c, from as int) is None,
        },
{
    let n = v.len();
    let mut i: usize = from;
    while i < n && v[i] != c
        invariant
            n == v@.len(),
            from <= i <= n,
            find_char(v@, c, from as int) == find_char(v@, c, i as int),
        decreases n - i,
    {
        i = i + 1;
    }
    if i < n {
        Some(i)
    } else {
        None
    }
}

/// The prefix relation on character sequences.
pub open spec fn starts_with(s: Seq<char>, p: Seq<char>) -> bool {
    p.len() <= s.len() && s.subrange(0, p.len() as int) == p
}

/// What follows a prefix of that length.
pub open spec fn after_prefix(s: Seq<char>, p: Seq<char>) -> Seq<char> {
    s.subrange(p.len() as int, s.len() as int)
}

/// Whether the characters start with the string's characters.
pub fn chars_starts_with(v: &Vec<char>, p: &str) -> (r: bool)
    ensures
        r == starts_with(v@, p@),
{
    let pl = p.unicode_len();
    if pl > v.len() {
        return false;
    }
    let mut i: usize = 0;
    while i < pl
        invariant
            pl == p@.len(),
            pl <= v@.len(),
            i <= pl,
            forall|k: int| 0 <= k < i ==> v@[k] == p@[k],
        decreases pl - i,
    {
        if v[i] != p.get_char(i) {
            assert(v@.subrange(0, pl as int)[i as int] != p@[i as int]);
            return false;
        }
        i = i + 1;
    }
    assert(v@.subrange(0, pl as int) =~= p@);
    true
}

/// The characters from position `n` on.
pub fn chars_from(v: &Vec<char>, n: usize) -> (r: Vec<char>)
    requires
        n <= v@.len(),
    ensures
        r@ == v@.subrange(n as int, v@.len() as int),
{
    let len = v.len();
    let mut r: Vec<char> = Vec::new();
    let mut i: usize = n;
    while i < len
        invariant
            n <= i <= len,
            len == v@.len(),
            r@ == v@.subrange(n as int, i as int),
        decreases len - i,
    {
        r.push(v[i]);
        i = i + 1;
    }
    assert(r@ =~= v@.subrange(n as int, len as int));
    r
}

/// The suffix relation on character sequences.
pub open spec fn ends_with(s: Seq<char>, p: Seq<char>) -> bool {
    p.len() <= s.len() && s.subrange(s.len() - p.len(), s.len() as int) == p
}

/// Whether the characters end with the string's characters.
pub fn chars_ends_with(v: &Vec<char>, p: &str) -> (r: bool)
    ensures
        r == ends_with(v@, p@),
{
    let pl = p.unicode_len();
    let vl = v.len();
    if pl > vl {
        return false;
    }
    let off = vl - pl;
    let mut i: usize = 0;
    while i < pl
        invariant
            pl == p@.len(),
            vl == v@.len(),
            pl <= vl,
            off == vl - pl,
            i <= pl,
            forall|k: int| 0 <= k < i ==> v@[off + k] == p@[k],
        decreases pl - i,
    {
        if v[off + i] != p.get_char(i) {
            assert(v@.subrange(v@.len() - p@.len(), v@.len() as int)[i as int] != p@[i as int]);
            return false;
        }
        i = i + 1;
    }
    assert(v@.subrange(v@.len() - p@.len(), v@.len() as int) =~= p@);
    true
}

/// The characters of positions `from..to`.
pub fn chars_range(v: &Vec<char>, from: usize, to: usize) -> (r: Vec<char>)
    requires
        from <= to <= v@.len(),
    ensures
        r@ == v@.subrange(from as int, to as int),
{
    let mut r: Vec<char> = Vec::new();
    let mut i: usize = from;
    while i < to
        invariant
            from <= i <= to <= v@.len(),
            r@ == v@.subrange(from as int, i as int),
        decreases to - i,
    {
        r.push(v[i]);
        i = i + 1;
    }
    assert(r@ =~= v@.subrange(from as int, to as int));
    r
}

/// Index of the first `'>'` at or after `i`, if any.
pub open spec fn find_gt(s: Seq<char>, i: int) -> Option<int>
    decreases s.len() - i when 0 <= i <= s.len()
{
    if i >= s.len() {
        None
    } else if s[i] == '>' {
        Some(i)
    } else {
        find_gt(s, i + 1)
    }
}

pub proof fn lemma_find_gt(s: Seq<char>, i: int)
    requires
        0 <= i <= s.len(),
    ensures
        match find_gt(s, i) {
            Some(j) => i <= j < s.len() && s[j] == '>' && forall|k: int| i <= k < j ==> s[k] != '>',
            None => forall|k: int| i <= k < s.len() ==> s[k] != '>',
        },
    decreases s.len() - i,
{
    if i < s.len() && s[i] != '>' {
        lemma_find_gt(s, i + 1);
    }
}

/// Text with markup removed, starting at position `i`: every span from a
/// `'<'` to the nearest `'>'` at least two places later becomes one space;
/// a `'<'` with no such closing `'>'` stays as it is.
pub open spec fn strip_from(s: Seq<char>, i: int) -> Seq<char>
    decreases s.len() - i when 0 <= i <= s.len()
{
    if i >= s.len() {
        Seq::empty()
    } else if s[i] == '<' && (match find_gt(s, i + 1) {
        Some(j) => i + 2 <= j < s.len(),
        None => false,
    }) {
        seq![' '] + strip_from(s, find_gt(s, i + 1)->Some_0 + 1)
    } else {
        seq![s[i]] + strip_from(s, i + 1)
    }
}

/// Plain text of a markup fragment before whitespace normalization.
pub open spec fn strip_tags_spec(s: Seq<char>) -> Seq<char> {
    strip_from(s, 0)
}

/// Removes markup tags from a character sequence.
pub fn strip_tags(s: &Vec<char>) -> (r: Vec<char>)
    ensures
        r@ == strip_tags_spec(s@),
{
    let n = s.len();
    let mut out: Vec<char> = Vec::new();
    let mut i: usize = 0;
    while i < n
        invariant
            n == s@.len(),
            i <= n,
            out@ + strip_from(s@, i as int) =~= strip_tags_spec(s@),
        decreases n - i,
    {
        if s[i] == '<' {
            // Scan for the closing '>' of this tag.
            let mut j: usize = i + 1;
            while j < n && s[j] != '>'
                invariant
                    i + 1 <= j <= n,
                    n == s@.len(),
                    forall|k: int| i + 1 <= k < j ==> s@[k] != '>',
                decreases n - j,
            {
                j = j + 1;
            }
            proof {
                lemma_find_gt(s@, i as int + 1);
            }
            if j < n && j >= i + 2 {
                // A tag: replace the whole span with one space.
                assert(find_gt(s@, i as int + 1) == Some(j as int));
                out.push(' ');
                i = j + 1;
            } else {
                // "<>" or an unclosed '<': the character stays.
                assert(match find_gt(s@, i as int + 1) {
                    Some(g) => !(i + 2 <= g < s@.len()),
                    None => true,
                });
                out.push(s[i]);
                i = i + 1;
            }
        } else {
            out.push(s[i]);
            i = i + 1;
        }
    }
    assert(out@ =~= strip_tags_spec(s@));
    out
}

/// Words joined by single spaces, starting at position `i`.  `started`
/// records whether a word character was already emitted; `pending` records
/// that a space must be emitted before the next word character.
pub open spec fn collapse_from(s: Seq<char>, i: int, started: bool, pending: bool) -> Seq<char>
    decreases s.len() - i when 0 <= i <= s.len()
{
    if i >= s.len() {
        Seq::empty()
    } else if is_space_char(s[i]) {
        collapse_from(s, i + 1, started, started)
    } else if pending {
        seq![' ', s[i]] + collapse_from(s, i + 1, true, false)
    } else {
        seq![s[i]] + collapse_from(s, i + 1, true, false)
    }
}

/// Whitespace normalization: runs of whitespace collapse to one space, and
/// the result neither starts nor ends with a space.
pub open spec fn collapse_spec(s: Seq<char>) -> Seq<char> {
    collapse_from(s, 0, false, false)
}

/// Collapses consecutive whitespace to single spaces and trims both ends.
pub fn collapse_ws(s: &Vec<char>) -> (r: Vec<char>)
    ensures
        r@ == collapse_spec(s@),
{
    let n = s.len();
    let mut out: Vec<char> = Vec::new();
    let mut i: usize = 0;
    let mut started: bool = false;
    let mut pending: bool = false;
    while i < n
        invariant
            n == s@.len(),
            i <= n,
            out@ + collapse_from(s@, i as int, started, pending) =~= collapse_spec(s@),
        decreases n - i,
    {
        if space_char(s[i]) {
            pending = started;
        } else {
            if pending {
                out.push(' ');
            }
            out.push(s[i]);
            started = true;
            pending = false;
        }
        i = i + 1;
    }
    assert(out@ =~= collapse_spec(s@));
    out
}

proof fn lemma_collapse_from_normalized(s: Seq<char>, i: int, started: bool, pending: bool)
    requires
        0 <= i <= s.len(),
        pending ==> started,
    ensures
        ({
            let o = collapse_from(s, i, started, pending);
            &&& forall|k: int| 0 <= k < o.len() && is_space_char(#[trigger] o[k]) ==> o[k] == ' '
            &&& o.len() > 0 ==> !is_space_char(o.last())
            &&& !started && o.len() > 0 ==> !is_space_char(o[0])
            &&& forall|k: int| 0 <= k < o.len() - 1 ==> !(is_space_char(#[trigger] o[k])
                && is_space_char(o[k + 1]))
        }),
    decreases s.len() - i,
{
    if i < s.len() {
        if is_space_char(s[i]) {
            lemma_collapse_from_normalized(s, i + 1, started, started);
        } else {
            lemma_collapse_from_normalized(s, i + 1, true, false);
            let rest = collapse_from(s, i + 1, true, false);
            let o = collapse_from(s, i, started, pending);
            let head: Seq<char> = if pending {
                seq![' ', s[i]]
            } else {
                seq![s[i]]
            };
            let hl = head.len() as int;
            assert(o =~= head + rest);
            assert(head.last() == s[i]);
            assert forall|k: int| 0 <= k < o.len() && is_space_char(#[trigger] o[k]) implies o[k]
                == ' ' by {
                if k >= hl {
                    assert(o[k] == rest[k - hl]);
                } else if !(pending && k == 0) {
                    assert(o[k] == s[i]);
                }
            }
            if rest.len() > 0 {
                assert(o.last() == rest.last());
            } else {
                assert(o.last() == s[i]);
            }
            assert forall|k: int| 0 <= k < o.len() - 1 implies !(is_space_char(#[trigger] o[k])
                && is_space_char(o[k + 1])) by {
                if k + 1 < hl {
                    assert(o[k + 1] == s[i]);
                } else if k + 1 == hl {
                    assert(o[k] == s[i]);
                } else {
                    assert(o[k] == rest[k - hl] && o[k + 1] == rest[k + 1 - hl]);
                }
            }
            if !started {
                assert(o[0] == s[i]);
            }
        }
    }
}

/// Whitespace normalization is normal in shape: every whitespace character
/// of the result is a single plain space between words, and the result
/// neither starts nor ends with one.
pub proof fn lemma_collapse_normalized(s: Seq<char>)
    ensures
        ({
            let o = collapse_spec(s);
            &&& forall|k: int| 0 <= k < o.len() && is_space_char(#[trigger] o[k]) ==> o[k] == ' '
            &&& o.len() > 0 ==> !is_space_char(o[0]) && !is_space_char(o.last())
            &&& forall|k: int| 0 <= k < o.len() - 1 ==> !(is_space_char(#[trigger] o[k])
                && is_space_char(o[k + 1]))
        }),
{
    lemma_collapse_from_normalized(s, 0, false, false);
}

/// Plain, searchable text of an HTML fragment: markup removed, whitespace
/// normalized.
pub open spec fn plain_of(s: Seq<char>) -> Seq<char> {
    collapse_spec(strip_tags_spec(s))
}

/// Plain text is normalized: whatever the fragment held, its plain text has
/// single spaces between words and none at either end.
pub proof fn lemma_plain_normalized(s: Seq<char>)
    ensures
        ({
            let o = plain_of(s);
            &&& o.len() > 0 ==> !is_space_char(o[0]) && !is_space_char(o.last())
            &&& forall|k: int| 0 <= k < o.len() - 1 ==> !(is_space_char(#[trigger] o[k])
                && is_space_char(o[k + 1]))
        }),
{
    lemma_collapse_normalized(strip_tags_spec(s));
}

/// Strips markup from an HTML fragment and normalizes whitespace.
pub fn html_to_plain(html: &str) -> (r: Vec<char>)
    ensures
        r@ == plain_of(html@),
{
    let cs = chars_of(html);
    let stripped = strip_tags(&cs);
    collapse_ws(&stripped)
}

/// The sequence without leading or trailing whitespace.
pub open spec fn trim_spec(s: Seq<char>) -> Seq<char> {
    let from = trim_start_idx(s, 0);
    let to = trim_end_idx(s);
    if from <= to {
        s.subrange(from, to)
    } else {
        Seq::empty()
    }
}

/// Index of the first non-whitespace character at or after `i`, or the length.
pub open spec fn trim_start_idx(s: Seq<char>, i: int) -> int
    decreases s.len() - i when 0 <= i <= s.len()
{
    if i >= s.len() {
        s.len() as int
    } else if is_space_char(s[i]) {
        trim_start_idx(s, i + 1)
    } else {
        i
    }
}

/// One past the last non-whitespace character, or zero.
pub open spec fn trim_end_idx(s: Seq<char>) -> int
    decreases s.len()
{
    if s.len() == 0 {
        0
    } else if is_space_char(s.last()) {
        trim_end_idx(s.drop_last())
    } else {
        s.len() as int
    }
}

proof fn lemma_trim_start_idx(s: Seq<char>, i: int)
    requires
        0 <= i <= s.len(),
    ensures
        i <= trim_start_idx(s, i) <= s.len(),
        forall|k: int| i <= k < trim_start_idx(s, i) ==> is_space_char(s[k]),
        trim_start_idx(s, i) < s.len() ==> !is_space_char(s[trim_start_idx(s, i)]),
    decreases s.len() - i,
{
    if i < s.len() && is_space_char(s[i]) {
        lemma_trim_start_idx(s, i + 1);
    }
}

proof fn lemma_trim_end_idx(s: Seq<char>)
    ensures
        0 <= trim_end_idx(s) <= s.len(),
        forall|k: int| trim_end_idx(s) <= k < s.len() ==> is_space_char(s[k]),
        trim_end_idx(s) > 0 ==> !is_space_char(s[trim_end_idx(s) - 1]),
    decreases s.len(),
{
    if s.len() > 0 && is_space_char(s.last()) {
        lemma_trim_end_idx(s.drop_last());
        assert forall|k: int| trim_end_idx(s) <= k < s.len() implies is_space_char(s[k]) by {
            if k < s.len() - 1 {
                assert(s.drop_last()[k] == s[k]);
            }
        }
    }
}

/// The sequence without leading whitespace.
pub open spec fn trim_start_spec(s: Seq<char>) -> Seq<char> {
    s.subrange(trim_start_idx(s, 0), s.len() as int)
}

/// The characters without leading whitespace.
pub fn trim_start_chars(s: &Vec<char>) -> (r: Vec<char>)
    ensures
        r@ == trim_start_spec(s@),
{
    let n = s.len();
    let mut from: usize = 0;
    while from < n && space_char(s[from])
        invariant
            n == s@.len(),
            from <= n,
            trim_start_idx(s@, 0) == trim_start_idx(s@, from as int),
            forall|k: int| 0 <= k < from ==> is_space_char(s@[k]),
        decreases n - from,
    {
        from = from + 1;
    }
    proof {
        lemma_trim_start_idx(s@, from as int);
    }
    assert(trim_start_idx(s@, 0) == from as int);
    chars_from(s, from)
}

/// The sequence without leading or trailing whitespace characters.
pub fn trim_chars(s: &Vec<char>) -> (r: Vec<char>)
    ensures
        r@ == trim_spec(s@),
{
    let n = s.len();
    let mut from: usize = 0;
    while from < n && space_char(s[from])
        invariant
            n == s@.len(),
            from <= n,
            trim_start_idx(s@, 0) == trim_start_idx(s@, from as int),
            forall|k: int| 0 <= k < from ==> is_space_char(s@[k]),
        decreases n - from,
    {
        from = from + 1;
    }
    proof {
        lemma_trim_start_idx(s@, from as int);
    }
    assert(trim_start_idx(s@, 0) == from as int);
    assert(s@.subrange(0, n as int) =~= s@);
    let mut to: usize = n;
    while to > from && space_char(s[to - 1])
        invariant
            n == s@.len(),
            from <= to <= n,
            from as int == trim_start_idx(s@, 0),
            trim_end_idx(s@) == trim_end_idx(s@.subrange(0, to as int)),
            forall|k: int| to <= k < n ==> is_space_char(s@[k]),
        decreases to,
    {
        proof {
            assert(s@.subrange(0, to as int).drop_last() =~= s@.subrange(0, to as int - 1));
        }
        to = to - 1;
    }
    proof {
        lemma_trim_end_idx(s@.subrange(0, to as int));
        lemma_trim_start_idx(s@, 0);
        if to > from {
            assert(trim_end_idx(s@.subrange(0, to as int)) == to as int);
        } else {
            // Everything from `from` on is whitespace, so the trimmed end
            // cannot lie beyond `from`.
            assert(trim_end_idx(s@.subrange(0, to as int)) <= to as int);
        }
    }
    let mut r: Vec<char> = Vec::new();
    let mut i: usize = from;
    while i < to
        invariant
            from <= i <= to <= n,
            n == s@.len(),
            r@ == s@.subrange(from as int, i as int),
        decreases to - i,
    {
        r.push(s[i]);
        i = i + 1;
    }
    assert(r@ =~= trim_spec(s@));
    r
}

/// The view of an optional string.
pub open spec fn opt_str(o: Option<String>) -> Option<Seq<char>> {
    match o {
        Some(s) => Some(s@),
        None => None,
    }
}

/// Copies an optional string.
pub fn clone_opt_string(o: &Option<String>) -> (r: Option<String>)
    ensures
        opt_str(r) == opt_str(*o),
{
    match o {
        Some(s) => Some(s.clone()),
        None => None,
    }
}

/// Copies a list of strings.
pub fn clone_strings(v: &Vec<String>) -> (r: Vec<String>)
    ensures
        r@.map_values(|s: String| s@) == v@.map_values(|s: String| s@),
{
    let n = v.len();
    let mut r: Vec<String> = Vec::new();
    let mut i: usize = 0;
    while i < n
        invariant
            n == v@.len(),
            i <= n,
            r@.len() == i,
            forall|k: int| 0 <= k < i ==> r@[k]@ == v@[k]@,
        decreases n - i,
    {
        r.push(v[i].clone());
        i = i + 1;
    }
    assert(r@.map_values(|s: String| s@) =~= v@.map_values(|s: String| s@));
    r
}

/// The text from position `i` on with every occurrence of a non-empty
/// pattern replaced, scanning left to right without overlap.
pub open spec fn replace_from(s: Seq<char>, pat: Seq<char>, to: Seq<char>, i: int) -> Seq<char>
    decreases s.len() - i when 0 <= i <= s.len() && pat.len() > 0
{
    if i >= s.len() {
        Seq::empty()
    } else if i + pat.len() <= s.len() && s.subrange(i, i + pat.len() as int) == pat {
        to + replace_from(s, pat, to, i + pat.len() as int)
    } else {
        seq![s[i]] + replace_from(s, pat, to, i + 1)
    }
}

/// The text with every occurrence of the pattern replaced; an empty pattern
/// replaces nothing.
pub open spec fn replace_spec(s: Seq<char>, pat: Seq<char>, to: Seq<char>) -> Seq<char> {
    if pat.len() == 0 {
        s
    } else {
        replace_from(s, pat, to, 0)
    }
}

/// Replaces every occurrence of a pattern, scanning left to right without
/// overlap.
pub fn replace_chars(s: &Vec<char>, pat: &Vec<char>, to: &Vec<char>) -> (r: Vec<char>)
    ensures
        r@ == replace_spec(s@, pat@, to@),
{
    let n = s.len();
    let pl = pat.len();
    if pl == 0 {
        return chars_from(s, 0);
    }
    let mut out: Vec<char> = Vec::new();
    let mut i: usize = 0;
    while i < n
        invariant
            n == s@.len(),
            pl == pat@.len(),
            pl > 0,
            i <= n,
            out@ + replace_from(s@, pat@, to@, i as int) =~= replace_spec(s@, pat@, to@),
        decreases n - i,
    {
        let mut matched: bool = false;
        if pl <= n - i {
            let mut j: usize = 0;
            matched = true;
            while j < pl
                invariant
                    n == s@.len(),
                    pl == pat@.len(),
                    i + pl <= n,
                    j <= pl,
                    matched == (forall|k: int| 0 <= k < j ==> s@[i + k] == pat@[k]),
                decreases pl - j,
            {
                if s[i + j] != pat[j] {
                    matched = false;
                    j = pl;
                } else {
                    proof {
                        assert(s@[i + j] == pat@[j as int]);
                    }
                    j = j + 1;
                }
            }
        }
        if matched {
            proof {
                assert(s@.subrange(i as int, i + pl as int) =~= pat@);
            }
            let mut piece = chars_from(to, 0);
            proof {
                assert(piece@ =~= to@);
            }
            out.append(&mut piece);
            i = i + pl;
        } else {
            proof {
                if i + pl <= n && s@.subrange(i as int, i + pl as int) == pat@ {
                    assert forall|k: int| 0 <= k < pl implies s@[i + k] == pat@[k] by {
                        assert(pat@[k] == s@.subrange(i as int, i + pl as int)[k]);
                    }
                }
            }
            out.push(s[i]);
            i = i + 1;
        }
    }
    assert(out@ =~= replace_spec(s@, pat@, to@));
    out
}

/// Whether two strings hold the same characters.
pub fn str_eq(a: &str, b: &str) -> (r: bool)
    ensures
        r == (a@ == b@),
{
    let na = a.unicode_len();
    let nb = b.unicode_len();
    if na != nb {
        assert(a@ != b@);
        return false;
    }
    let mut i: usize = 0;
    while i < na
        invariant
            na == a@.len(),
            na == b@.len(),
            i <= na,
            forall|k: int| 0 <= k < i ==> a@[k] == b@[k],
        decreases na - i,
    {
        if a.get_char(i) != b.get_char(i) {
            assert(a@ != b@);
            return false;
        }
        i = i + 1;
    }
    assert(a@ =~= b@);
    true
}

/// Whether the characters equal the string's characters.
pub fn chars_eq_str(v: &Vec<char>, s: &str) -> (r: bool)
    ensures
        r == (v@ == s@),
{
    let n = s.unicode_len();
    if v.len() != n {
        assert(v@ != s@);
        return false;
    }
    let mut i: usize = 0;
    while i < n
        invariant
            n == s@.len(),
            n == v@.len(),
            i <= n,
            forall|k: int| 0 <= k < i ==> v@[k] == s@[k],
        decreases n - i,
    {
        if v[i] != s.get_char(i) {
            assert(v@ != s@);
            return false;
        }
        i = i + 1;
    }
    assert(v@ =~= s@);
    true
}

} // verus!
