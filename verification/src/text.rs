use vstd::prelude::*;
use vstd::string::StringSliceAdditionalSpecFns;
use vstd::string::StrSliceExecFns;

verus! {

/// Splitting a character sequence on a separator, described from the left:
/// an empty sequence yields one empty segment, a leading separator opens a
/// new empty segment, and any other leading character is prepended to the
/// first segment of the remainder's split. This matches how `str::split`
/// behaves on a single-character pattern: the result always holds at least
/// one segment, and `n` separators yield exactly `n + 1` segments.
pub open spec fn split_chars(s: Seq<char>, sep: char) -> Seq<Seq<char>>
    decreases s.len(),
{
    if s.len() == 0 {
        seq![Seq::<char>::empty()]
    } else if s[0] == sep {
        seq![Seq::<char>::empty()] + split_chars(s.drop_first(), sep)
    } else {
        let rest = split_chars(s.drop_first(), sep);
        seq![seq![s[0]] + rest[0]] + rest.drop_first()
    }
}

/// Joining segments with a separator between consecutive segments.
pub open spec fn join_chars(parts: Seq<Seq<char>>, sep: char) -> Seq<char>
    decreases parts.len(),
{
    if parts.len() == 0 {
        Seq::<char>::empty()
    } else if parts.len() == 1 {
        parts[0]
    } else {
        parts[0] + seq![sep] + join_chars(parts.drop_first(), sep)
    }
}

/// A split result is never empty.
pub proof fn lemma_split_chars_len(s: Seq<char>, sep: char)
    ensures
        split_chars(s, sep).len() >= 1,
    decreases s.len(),
{
    if s.len() == 0 {
    } else {
        lemma_split_chars_len(s.drop_first(), sep);
    }
}

/// Splitting a sequence that holds no separator yields that sequence as the
/// only segment.
pub proof fn lemma_split_chars_whole(s: Seq<char>, sep: char)
    requires
        forall|j: int| 0 <= j < s.len() ==> s[j] != sep,
    ensures
        split_chars(s, sep) =~= seq![s],
    decreases s.len(),
{
    if s.len() == 0 {
        assert(split_chars(s, sep) == seq![Seq::<char>::empty()]);
        assert(s =~= Seq::<char>::empty());
    } else {
        lemma_split_chars_whole(s.drop_first(), sep);
        assert(seq![s[0]] + s.drop_first() =~= s);
    }
}

/// Splitting at the first separator: if position `k` holds the first
/// separator, the first segment is everything before `k` and the rest is the
/// split of everything after `k`.
pub proof fn lemma_split_chars_step(s: Seq<char>, sep: char, k: int)
    requires
        0 <= k < s.len(),
        s[k] == sep,
        forall|j: int| 0 <= j < k ==> s[j] != sep,
    ensures
        split_chars(s, sep) =~= seq![s.subrange(0, k)] + split_chars(
            s.subrange(k + 1, s.len() as int),
            sep,
        ),
    decreases k,
{
    if k == 0 {
        assert(s.subrange(0, 0) =~= Seq::<char>::empty());
        assert(s.drop_first() =~= s.subrange(1, s.len() as int));
    } else {
        let rest = s.drop_first();
        lemma_split_chars_step(rest, sep, k - 1);
        lemma_split_chars_len(rest.subrange(k, rest.len() as int), sep);
        assert(rest.subrange(0, k - 1) =~= s.subrange(1, k));
        assert(rest.subrange(k, rest.len() as int) =~= s.subrange(k + 1, s.len() as int));
        assert(seq![s[0]] + s.subrange(1, k) =~= s.subrange(0, k));
        assert(split_chars(s, sep) =~= seq![s.subrange(0, k)] + split_chars(
            s.subrange(k + 1, s.len() as int),
            sep,
        ));
    }
}

/// Every segment of a split is at most as long as the text that was split.
pub proof fn lemma_split_chars_segment_len(s: Seq<char>, sep: char)
    ensures
        forall|i: int|
            0 <= i < split_chars(s, sep).len() ==> #[trigger] split_chars(s, sep)[i].len()
                <= s.len(),
    decreases s.len(),
{
    if s.len() == 0 {
    } else if s[0] == sep {
        lemma_split_chars_segment_len(s.drop_first(), sep);
        assert forall|i: int|
            0 <= i < split_chars(s, sep).len() implies #[trigger] split_chars(s, sep)[i].len()
            <= s.len() by {
            if i > 0 {
                assert(split_chars(s, sep)[i] == split_chars(s.drop_first(), sep)[i - 1]);
            }
        }
    } else {
        lemma_split_chars_segment_len(s.drop_first(), sep);
        lemma_split_chars_len(s.drop_first(), sep);
        let rest = split_chars(s.drop_first(), sep);
        assert forall|i: int|
            0 <= i < split_chars(s, sep).len() implies #[trigger] split_chars(s, sep)[i].len()
            <= s.len() by {
            if i == 0 {
                assert(split_chars(s, sep)[0] == seq![s[0]] + rest[0]);
                assert(rest[0].len() <= s.drop_first().len());
            } else {
                assert(split_chars(s, sep)[i] == rest.drop_first()[i - 1]);
                assert(rest.drop_first()[i - 1] == rest[i]);
            }
        }
    }
}

/// The UTF-8 encoding of a character sequence holds at least one and at
/// most four bytes per character.
pub proof fn lemma_encode_utf8_len(s: Seq<char>)
    ensures
        s.len() <= vstd::utf8::encode_utf8(s).len() <= 4 * s.len(),
    decreases s.len(),
{
    if s.len() > 0 {
        lemma_encode_utf8_len(s.drop_first());
    }
}

/// Joining one more segment onto a non-empty sequence of segments appends
/// one separator and then that segment.
pub proof fn lemma_join_chars_push(parts: Seq<Seq<char>>, sep: char, x: Seq<char>)
    requires
        parts.len() >= 1,
    ensures
        join_chars(parts.push(x), sep) =~= join_chars(parts, sep) + seq![sep] + x,
    decreases parts.len(),
{
    if parts.len() == 1 {
        let p = parts.push(x);
        assert(p.drop_first() =~= seq![x]);
        assert(join_chars(p.drop_first(), sep) == x);
    } else {
        lemma_join_chars_push(parts.drop_first(), sep, x);
        assert(parts.push(x).drop_first() =~= parts.drop_first().push(x));
        assert(join_chars(parts.push(x), sep) =~= join_chars(parts, sep) + seq![sep] + x);
    }
}

/// Splitting undoes joining, provided no segment holds the separator.
pub proof fn lemma_split_join_chars(parts: Seq<Seq<char>>, sep: char)
    requires
        parts.len() >= 1,
        forall|i: int, j: int|
            0 <= i < parts.len() && 0 <= j < parts[i].len() ==> parts[i][j] != sep,
    ensures
        split_chars(join_chars(parts, sep), sep) =~= parts,
    decreases parts.len(),
{
    if parts.len() == 1 {
        lemma_split_chars_whole(parts[0], sep);
        assert(split_chars(join_chars(parts, sep), sep) =~= seq![parts[0]]);
        assert(seq![parts[0]] =~= parts);
    } else {
        let s = join_chars(parts, sep);
        let k = parts[0].len() as int;
        lemma_split_join_chars(parts.drop_first(), sep);
        assert(s =~= parts[0] + seq![sep] + join_chars(parts.drop_first(), sep));
        assert(s[k] == sep);
        assert(forall|j: int| 0 <= j < k ==> s[j] == parts[0][j] && s[j] != sep);
        lemma_split_chars_step(s, sep, k);
        assert(s.subrange(0, k) =~= parts[0]);
        assert(s.subrange(k + 1, s.len() as int) =~= join_chars(parts.drop_first(), sep));
        assert(split_chars(s, sep) =~= seq![parts[0]] + parts.drop_first());
        assert(seq![parts[0]] + parts.drop_first() =~= parts);
    }
}

/// Lexicographic order on character sequences, by scalar value, matching
/// how Rust orders strings.
pub open spec fn chars_le(a: Seq<char>, b: Seq<char>) -> bool
    decreases a.len(),
{
    if a.len() == 0 {
        true
    } else if b.len() == 0 {
        false
    } else if a[0] != b[0] {
        (a[0] as u32) < (b[0] as u32)
    } else {
        chars_le(a.drop_first(), b.drop_first())
    }
}

/// The lexicographic order is total: of any two sequences, one is at or
/// before the other.
pub proof fn lemma_chars_le_total(a: Seq<char>, b: Seq<char>)
    ensures
        chars_le(a, b) || chars_le(b, a),
    decreases a.len(),
{
    if a.len() == 0 || b.len() == 0 {
    } else if a[0] != b[0] {
        vstd::utf8::char_u32_cast(a[0], a[0] as u32);
        vstd::utf8::char_u32_cast(b[0], b[0] as u32);
        assert((a[0] as u32) != (b[0] as u32));
    } else {
        lemma_chars_le_total(a.drop_first(), b.drop_first());
    }
}

/// The lexicographic order is transitive.
pub proof fn lemma_chars_le_trans(a: Seq<char>, b: Seq<char>, c: Seq<char>)
    requires
        chars_le(a, b),
        chars_le(b, c),
    ensures
        chars_le(a, c),
    decreases a.len(),
{
    if a.len() == 0 || b.len() == 0 || c.len() == 0 {
    } else if a[0] == b[0] && b[0] == c[0] {
        lemma_chars_le_trans(a.drop_first(), b.drop_first(), c.drop_first());
    } else {
        vstd::utf8::char_u32_cast(a[0], a[0] as u32);
        vstd::utf8::char_u32_cast(b[0], b[0] as u32);
        vstd::utf8::char_u32_cast(c[0], c[0] as u32);
    }
}

/// As long as two sequences agree on a prefix, their order is decided by
/// what follows that prefix.
pub proof fn lemma_chars_le_skip(a: Seq<char>, b: Seq<char>, i: int)
    requires
        0 <= i <= a.len(),
        i <= b.len(),
        forall|j: int| 0 <= j < i ==> a[j] == b[j],
    ensures
        chars_le(a, b) == chars_le(a.skip(i), b.skip(i)),
    decreases i,
{
    if i > 0 {
        assert(a[0] == b[0]);
        lemma_chars_le_skip(a.drop_first(), b.drop_first(), i - 1);
        assert(a.drop_first().skip(i - 1) =~= a.skip(i));
        assert(b.drop_first().skip(i - 1) =~= b.skip(i));
    } else {
        assert(a.skip(0) =~= a);
        assert(b.skip(0) =~= b);
    }
}

/// True when `a` is lexicographically at or before `b`, as `str` ordering
/// compares strings.
pub fn str_le(a: &str, b: &str) -> (r: bool)
    ensures
        r == chars_le(a@, b@),
{
    let alen = a.unicode_len();
    let blen = b.unicode_len();
    let mut i: usize = 0;
    while i < alen && i < blen
        invariant
            i <= alen,
            i <= blen,
            alen == a@.len(),
            blen == b@.len(),
            forall|j: int| 0 <= j < i ==> a@[j] == b@[j],
        decreases alen - i,
    {
        let ca = a.get_char(i);
        let cb = b.get_char(i);
        if ca != cb {
            proof {
                lemma_chars_le_skip(a@, b@, i as int);
            }
            return (ca as u32) < (cb as u32);
        }
        i = i + 1;
    }
    proof {
        lemma_chars_le_skip(a@, b@, i as int);
    }
    alen <= blen
}

/// No segment of a join holds a given character, and the separator differs
/// from it: then the join does not hold it either.
pub proof fn lemma_join_chars_no_char(parts: Seq<Seq<char>>, sep: char, c: char)
    requires
        sep != c,
        forall|i: int, j: int| 0 <= i < parts.len() && 0 <= j < parts[i].len() ==> parts[i][j] != c,
    ensures
        forall|j: int| 0 <= j < join_chars(parts, sep).len() ==> join_chars(parts, sep)[j] != c,
    decreases parts.len(),
{
    if parts.len() <= 1 {
    } else {
        lemma_join_chars_no_char(parts.drop_first(), sep, c);
        let joined = join_chars(parts, sep);
        let head = parts[0];
        let tail = join_chars(parts.drop_first(), sep);
        assert(joined =~= head + seq![sep] + tail);
        assert forall|j: int| 0 <= j < joined.len() implies joined[j] != c by {
            if j < head.len() {
                assert(joined[j] == head[j]);
            } else if j == head.len() {
                assert(joined[j] == sep);
            } else {
                assert(joined[j] == tail[j - head.len() - 1]);
            }
        }
    }
}

/// Relies on `String::push`: it appends exactly one character.
#[verifier::external_body]
pub fn push_char(s: &mut String, c: char)
    ensures
        final(s)@ == old(s)@.push(c),
{
    s.push(c);
}

/// Relies on `str::len`: the length of the slice in bytes, a count that
/// always fits in `usize`.
#[verifier::external_body]
pub fn str_byte_len(s: &str) -> (n: usize)
    ensures
        n == s.spec_bytes().len(),
{
    s.len()
}

/// Relies on `String::from_utf8`: it succeeds exactly on valid UTF-8 bytes
/// and yields the text those bytes encode.
#[verifier::external_body]
pub fn string_from_utf8(bytes: &[u8]) -> (r: Option<String>)
    ensures
        r is Some <==> vstd::utf8::valid_utf8(bytes@),
        r is Some ==> vstd::utf8::encode_utf8(r.unwrap()@) == bytes@,
{
    match String::from_utf8(bytes.to_vec()) {
        Ok(s) => Option::Some(s),
        Err(_) => Option::None,
    }
}

/// True when the two string slices hold the same characters.
pub fn str_eq(a: &str, b: &str) -> (r: bool)
    ensures
        r == (a@ == b@),
{
    let alen = a.unicode_len();
    let blen = b.unicode_len();
    if alen != blen {
        return false;
    }
    let mut i: usize = 0;
    while i < alen
        invariant
            i <= alen,
            alen == a@.len(),
            alen == b@.len(),
            forall|j: int| 0 <= j < i ==> a@[j] == b@[j],
        decreases alen - i,
    {
        if a.get_char(i) != b.get_char(i) {
            return false;
        }
        i = i + 1;
    }
    proof {
        assert(a@ =~= b@);
    }
    true
}

/// Relies on `str::chars`: the characters of the slice, in order.
#[verifier::external_body]
fn str_to_chars(s: &str) -> (r: Vec<char>)
    ensures
        r@ == s@,
{
    s.chars().collect()
}

/// Splits `s` on the separator character, as `str::split` does on a
/// single-character pattern.
pub fn split_str(s: &str, sep: char) -> (parts: Vec<String>)
    ensures
        parts.deep_view() =~= split_chars(s@, sep),
        parts.len() >= 1,
{
    let chars = str_to_chars(s);
    let len = chars.len();
    let mut parts: Vec<String> = Vec::new();
    let mut current = String::new();
    let ghost mut start: int = 0;
    let mut i: usize = 0;
    proof {
        assert(s@.subrange(0, len as int) =~= s@);
        assert(current@ =~= s@.subrange(0, 0));
        assert(parts.deep_view() =~= Seq::<Seq<char>>::empty());
        assert(parts.deep_view() + split_chars(s@, sep) =~= split_chars(s@, sep));
    }
    while i < len
        invariant
            0 <= start <= i <= len,
            len == s@.len(),
            chars@ == s@,
            current@ =~= s@.subrange(start, i as int),
            forall|j: int| start <= j < i ==> s@[j] != sep,
            split_chars(s@, sep) =~= parts.deep_view() + split_chars(
                s@.subrange(start, len as int),
                sep,
            ),
        decreases len - i,
    {
        let c = chars[i];
        if c == sep {
            let ghost before = parts.deep_view();
            parts.push(current);
            current = String::new();
            proof {
                let tail = s@.subrange(start, len as int);
                lemma_split_chars_step(tail, sep, i - start);
                assert(tail.subrange(0, i - start) =~= s@.subrange(start, i as int));
                assert(tail.subrange(i - start + 1, tail.len() as int) =~= s@.subrange(
                    i + 1,
                    len as int,
                ));
                assert(parts.deep_view() =~= before.push(s@.subrange(start, i as int)));
                assert(before + (seq![s@.subrange(start, i as int)] + split_chars(
                    s@.subrange(i + 1, len as int),
                    sep,
                )) =~= parts.deep_view() + split_chars(s@.subrange(i + 1, len as int), sep));
                start = i + 1;
                assert(current@ =~= s@.subrange(start, i + 1));
            }
        } else {
            push_char(&mut current, c);
            proof {
                assert(current@ =~= s@.subrange(start, i + 1));
            }
        }
        i = i + 1;
    }
    let ghost before = parts.deep_view();
    let ghost tail = s@.subrange(start, len as int);
    parts.push(current);
    proof {
        lemma_split_chars_whole(tail, sep);
        assert(parts.deep_view() =~= before.push(tail));
        assert(before + seq![tail] =~= parts.deep_view());
    }
    parts
}

} // verus!
