//! The environment of a job as the hash-spooled scheduler stores it: a header
//! of four bytes, then entries of the form `KEY=VALUE`, each followed by a NUL
//! byte.
//!
//! The key of an entry is what precedes its first `=`, the value what follows
//! it; an entry without `=` is a key with an empty value. Keys and values are
//! kept as they stand. An entry whose key is empty once it is trimmed is
//! dropped, and so is one whose key a filter suppresses.

use crate::scheduler::job::EnvMap;
use crate::strmap::{texts, StringMap};
use crate::text::{
    chars_of, decode_lossy, decoded, find, find_char, has_char, lemma_find_is, split,
    split_ranges, string_of, trim, trim_range,
};
use regex::Regex;
use vstd::prelude::*;

verus! {

/// A compiled regular expression, carried through as an opaque value.
#[verifier::external_type_specification]
#[verifier::external_body]
pub struct ExRegex(regex::Regex);

/// Whether the regular expression `r` matches anywhere in `text`.
pub uninterp spec fn regex_is_match(r: Regex, text: Seq<char>) -> bool;

/// Whether `r` matches anywhere in `text`.
///
/// Calls `Regex::is_match`. Trusted: the answer depends on the expression and
/// the text alone.
#[verifier::external_body]
fn is_match(r: &Regex, text: &str) -> (b: bool)
    ensures
        b == regex_is_match(*r, text@),
{
    r.is_match(text)
}

/// A copy of an optional expression.
///
/// Calls `Regex::clone`. Trusted: the copy matches what the expression matches.
#[verifier::external_body]
pub(crate) fn clone_filter(r: &Option<Regex>) -> (c: Option<Regex>)
    ensures
        c == *r,
{
    r.clone()
}

/// The number of bytes at the front of a stored environment that are no part
/// of its entries.
pub const HEADER_LEN: usize = 4;

/// Whether the filter suppresses the key `key`.
pub open spec fn suppressed(filter: Option<Regex>, key: Seq<char>) -> bool {
    match filter {
        Some(r) => regex_is_match(r, key),
        None => false,
    }
}

/// The key of an entry: what precedes its first `=`, and all of it where it
/// has none.
pub open spec fn entry_key(entry: Seq<char>) -> Seq<char> {
    entry.take(find(entry, '='))
}

/// The value of an entry: what follows its first `=`, and nothing where it
/// has none.
pub open spec fn entry_value(entry: Seq<char>) -> Seq<char> {
    if find(entry, '=') < entry.len() {
        entry.skip(find(entry, '=') + 1)
    } else {
        Seq::empty()
    }
}

/// What one NUL-delimited piece of the environment contributes: its key with
/// its value, unless the key is empty once it is trimmed or the filter
/// suppresses it.
pub open spec fn parse_entry(piece: Seq<char>, filter: Option<Regex>) -> Option<
    (Seq<char>, Seq<char>),
> {
    let key = entry_key(piece);
    if trim(key).len() == 0 || suppressed(filter, key) {
        None
    } else {
        Some((key, entry_value(piece)))
    }
}

/// The map that a sequence of pieces gives: a later piece replaces an earlier
/// one with the same key.
pub open spec fn parse_pieces(pieces: Seq<Seq<char>>, filter: Option<Regex>) -> Map<
    Seq<char>,
    Seq<char>,
>
    decreases pieces.len(),
{
    if pieces.len() == 0 {
        Map::empty()
    } else {
        let m = parse_pieces(pieces.drop_last(), filter);
        match parse_entry(pieces.last(), filter) {
            Some((k, v)) => m.insert(k, v),
            None => m,
        }
    }
}

/// The variables that the text of an environment holds.
pub open spec fn parse_text(text: Seq<char>, filter: Option<Regex>) -> Map<Seq<char>, Seq<char>> {
    parse_pieces(split(text, '\0'), filter)
}

/// The bytes of a stored environment that follow its header.
pub open spec fn body(bytes: Seq<u8>) -> Seq<u8> {
    if bytes.len() >= HEADER_LEN {
        bytes.skip(HEADER_LEN as int)
    } else {
        Seq::empty()
    }
}

/// The variables that a stored environment holds.
pub open spec fn parse_bytes(bytes: Seq<u8>, filter: Option<Regex>) -> Map<Seq<char>, Seq<char>> {
    parse_text(decoded(body(bytes)), filter)
}

/// Whether `filter` suppresses the key `env`.
pub fn filter_env(r: &Option<Regex>, env: &str) -> (b: bool)
    ensures
        b == suppressed(*r, env@),
{
    match r {
        Some(rs) => is_match(rs, env),
        None => false,
    }
}

/// The variables that the characters `v` of an environment hold.
pub fn parse_chars(v: &Vec<char>, filter: &Option<Regex>) -> (m: EnvMap)
    ensures
        m.wf(),
        texts(m@) == parse_text(v@, *filter),
{
    let pieces = split_ranges(v, 0, v.len(), '\0');
    let mut m: EnvMap = StringMap::new();
    let mut n: usize = 0;
    proof {
        assert(v@.subrange(0, v@.len() as int) == v@);
        assert(split(v@, '\0').take(0) == Seq::<Seq<char>>::empty());
        assert(texts(m@) =~= Map::<Seq<char>, Seq<char>>::empty());
    }
    while n < pieces.len()
        invariant
            n <= pieces@.len(),
            pieces@.len() == split(v@, '\0').len(),
            forall|k: int|
                0 <= k < pieces@.len() ==> (#[trigger] pieces@[k]).0 <= pieces@[k].1 <= v@.len(),
            forall|k: int|
                0 <= k < pieces@.len() ==> v@.subrange(
                    (#[trigger] pieces@[k]).0 as int,
                    pieces@[k].1 as int,
                ) == split(v@, '\0')[k],
            m.wf(),
            texts(m@) == parse_pieces(split(v@, '\0').take(n as int), *filter),
        decreases pieces@.len() - n,
    {
        let ghost all = split(v@, '\0');
        let ghost before = m@;
        proof {
            assert(all.take(n as int + 1).drop_last() == all.take(n as int));
            assert(all.take(n as int + 1).last() == all[n as int]);
        }
        let (a, b) = pieces[n];
        let i = find_char(v, a, b, '=');
        proof {
            let piece = v@.subrange(a as int, b as int);
            assert forall|k: int| 0 <= k < i - a implies piece[k] != '=' by {
                assert(piece[k] == v@[a + k]);
            }
            lemma_find_is(piece, '=', i - a);
            assert(entry_key(piece) == v@.subrange(a as int, i as int));
            if i < b {
                assert(entry_value(piece) == v@.subrange(i as int + 1, b as int));
            }
        }
        let (ka, kb) = trim_range(v, a, i);
        if ka < kb {
            let key = string_of(v, a, i);
            if !filter_env(filter, key.as_str()) {
                let value = if i < b {
                    string_of(v, i + 1, b)
                } else {
                    String::new()
                };
                proof {
                    crate::strmap::lemma_texts_insert(before, key@, value);
                }
                m.insert(key, value);
            }
        }
        n += 1;
    }
    proof {
        assert(split(v@, '\0').take(n as int) == split(v@, '\0'));
    }
    m
}

/// The variables that the text of an environment holds.
pub fn parse_environment(text: &str, filter: &Option<Regex>) -> (m: EnvMap)
    ensures
        m.wf(),
        texts(m@) == parse_text(text@, *filter),
{
    let v = chars_of(text);
    parse_chars(&v, filter)
}

/// The variables that a stored environment holds: its header is skipped, the
/// rest is read as UTF-8, with U+FFFD in place of what is malformed.
pub fn parse_stored(bytes: &Vec<u8>, filter: &Option<Regex>) -> (m: EnvMap)
    ensures
        m.wf(),
        texts(m@) == parse_bytes(bytes@, *filter),
{
    let from: usize = if bytes.len() >= HEADER_LEN {
        HEADER_LEN
    } else {
        bytes.len()
    };
    let rest = vstd::slice::slice_subrange(bytes.as_slice(), from, bytes.len());
    proof {
        assert(rest@ == body(bytes@));
    }
    let text = decode_lossy(rest);
    parse_environment(text.as_str(), filter)
}

proof fn lemma_filter_pieces(pieces: Seq<Seq<char>>, filter: Option<Regex>)
    ensures
        forall|k: Seq<char>|
            #![trigger parse_pieces(pieces, filter).contains_key(k)]
            #![trigger parse_pieces(pieces, None).contains_key(k)]
            parse_pieces(pieces, filter).contains_key(k) <==> parse_pieces(
                pieces,
                None,
            ).contains_key(k) && !suppressed(filter, k),
        forall|k: Seq<char>|
            #[trigger] parse_pieces(pieces, filter).contains_key(k) ==> parse_pieces(
                pieces,
                filter,
            )[k] == parse_pieces(pieces, None)[k],
    decreases pieces.len(),
{
    if pieces.len() > 0 {
        let init = pieces.drop_last();
        lemma_filter_pieces(init, filter);
        let with = parse_pieces(init, filter);
        let without = parse_pieces(init, None);
        let key = entry_key(pieces.last());
        let value = entry_value(pieces.last());
        assert forall|k: Seq<char>|
            parse_pieces(pieces, filter).contains_key(k) <==> parse_pieces(
                pieces,
                None,
            ).contains_key(k) && !suppressed(filter, k) by {
            assert(with.contains_key(k) <==> without.contains_key(k) && !suppressed(filter, k));
        }
        assert forall|k: Seq<char>|
            #[trigger] parse_pieces(pieces, filter).contains_key(k) implies parse_pieces(
                pieces,
                filter,
            )[k] == parse_pieces(pieces, None)[k] by {
            assert(with.contains_key(k) <==> without.contains_key(k) && !suppressed(filter, k));
            if with.contains_key(k) {
                assert(with[k] == without[k]);
            }
        }
    }
}

/// A filter takes away the keys that it matches and nothing else: what a
/// stored environment holds with a filter is what it holds without one, less
/// the keys that the filter suppresses.
pub proof fn lemma_filter_takes_matching_keys(bytes: Seq<u8>, filter: Option<Regex>)
    ensures
        forall|k: Seq<char>|
            #![trigger parse_bytes(bytes, filter).contains_key(k)]
            #![trigger parse_bytes(bytes, None).contains_key(k)]
            parse_bytes(bytes, filter).contains_key(k) <==> parse_bytes(
                bytes,
                None,
            ).contains_key(k) && !suppressed(filter, k),
        forall|k: Seq<char>|
            #[trigger] parse_bytes(bytes, filter).contains_key(k) ==> parse_bytes(
                bytes,
                filter,
            )[k] == parse_bytes(bytes, None)[k],
{
    let pieces = split(decoded(body(bytes)), '\0');
    lemma_filter_pieces(pieces, filter);
    assert forall|k: Seq<char>|
        parse_bytes(bytes, filter).contains_key(k) <==> parse_bytes(bytes, None).contains_key(k)
            && !suppressed(filter, k) by {
        assert(parse_pieces(pieces, filter).contains_key(k) <==> parse_pieces(
            pieces,
            None,
        ).contains_key(k) && !suppressed(filter, k));
    }
}

/// The text of the entry that gives `key` the value `value`, without the NUL
/// that ends it.
pub open spec fn entry_text(key: Seq<char>, value: Seq<char>) -> Seq<char> {
    key.push('=') + value
}

/// The text of an environment with the given entries in the given order, each
/// ended by a NUL.
pub open spec fn environment_text(entries: Seq<(Seq<char>, Seq<char>)>) -> Seq<char>
    decreases entries.len(),
{
    if entries.len() == 0 {
        Seq::empty()
    } else {
        (environment_text(entries.drop_last()) + entry_text(
            entries.last().0,
            entries.last().1,
        )).push('\0')
    }
}

/// The mapping that a list of entries stands for: a later entry replaces an
/// earlier one with the same key.
pub open spec fn mapping(entries: Seq<(Seq<char>, Seq<char>)>) -> Map<Seq<char>, Seq<char>>
    decreases entries.len(),
{
    if entries.len() == 0 {
        Map::empty()
    } else {
        mapping(entries.drop_last()).insert(entries.last().0, entries.last().1)
    }
}

/// A key that the stored form can hold: free of `=` and NUL, and not empty
/// once it is trimmed.
pub open spec fn plain_key(key: Seq<char>) -> bool {
    &&& trim(key).len() > 0
    &&& !has_char(key, '=')
    &&& !has_char(key, '\0')
}

/// A value that the stored form can hold: free of NUL.
pub open spec fn plain_value(value: Seq<char>) -> bool {
    !has_char(value, '\0')
}

/// The pieces of an environment's text, apart from the empty one after the
/// last NUL.
pub open spec fn entry_texts(entries: Seq<(Seq<char>, Seq<char>)>) -> Seq<Seq<char>> {
    Seq::new(entries.len(), |i: int| entry_text(entries[i].0, entries[i].1))
}

proof fn lemma_entry_text_has_no_nul(key: Seq<char>, value: Seq<char>)
    requires
        !has_char(key, '\0'),
        !has_char(value, '\0'),
    ensures
        !has_char(entry_text(key, value), '\0'),
{
    let t = entry_text(key, value);
    assert forall|i: int| 0 <= i < t.len() implies t[i] != '\0' by {
        if i < key.len() {
            assert(t[i] == key[i]);
        } else if i > key.len() {
            assert(t[i] == value[i - key.len() - 1]);
        }
    }
}

proof fn lemma_environment_pieces(entries: Seq<(Seq<char>, Seq<char>)>)
    requires
        forall|i: int|
            0 <= i < entries.len() ==> plain_key(#[trigger] entries[i].0) && plain_value(
                entries[i].1,
            ),
    ensures
        split(environment_text(entries), '\0') == entry_texts(entries).push(Seq::<char>::empty()),
    decreases entries.len(),
{
    if entries.len() == 0 {
        assert(entry_texts(entries).push(Seq::<char>::empty()) == seq![Seq::<char>::empty()]);
    } else {
        let init = entries.drop_last();
        let last = entries.last();
        assert forall|i: int| 0 <= i < init.len() implies plain_key(#[trigger] init[i].0)
            && plain_value(init[i].1) by {
            assert(init[i] == entries[i]);
        }
        lemma_environment_pieces(init);
        let head = environment_text(init);
        let e = entry_text(last.0, last.1);
        assert(plain_key(entries[entries.len() - 1].0));
        lemma_entry_text_has_no_nul(last.0, last.1);
        crate::text::lemma_split_append(head, e, '\0');
        crate::text::lemma_split_push_separator(head + e, '\0');
        let pieces = split(head, '\0');
        assert(pieces.last() == Seq::<char>::empty());
        assert(Seq::<char>::empty() + e == e);
        assert forall|i: int| 0 <= i < init.len() implies entry_texts(init)[i] == entry_texts(
            entries,
        )[i] by {
            assert(init[i] == entries[i]);
        }
        assert(pieces.update(pieces.len() - 1, e).push(Seq::<char>::empty()) =~= entry_texts(
            entries,
        ).push(Seq::<char>::empty()));
    }
}

proof fn lemma_parse_plain_entry(key: Seq<char>, value: Seq<char>)
    requires
        plain_key(key),
        plain_value(value),
    ensures
        parse_entry(entry_text(key, value), None) == Some((key, value)),
{
    let t = entry_text(key, value);
    assert forall|k: int| 0 <= k < key.len() implies t[k] != '=' by {
        assert(t[k] == key[k]);
    }
    assert(t[key.len() as int] == '=');
    lemma_find_is(t, '=', key.len() as int);
    assert(entry_key(t) =~= key);
    assert(entry_value(t) =~= value);
}

proof fn lemma_parse_entry_texts(entries: Seq<(Seq<char>, Seq<char>)>)
    requires
        forall|i: int|
            0 <= i < entries.len() ==> plain_key(#[trigger] entries[i].0) && plain_value(
                entries[i].1,
            ),
    ensures
        parse_pieces(entry_texts(entries), None) == mapping(entries),
    decreases entries.len(),
{
    if entries.len() > 0 {
        let init = entries.drop_last();
        let last = entries.last();
        assert forall|i: int| 0 <= i < init.len() implies plain_key(#[trigger] init[i].0)
            && plain_value(init[i].1) by {
            assert(init[i] == entries[i]);
        }
        lemma_parse_entry_texts(init);
        assert(plain_key(entries[entries.len() - 1].0));
        lemma_parse_plain_entry(last.0, last.1);
        assert(entry_texts(entries).drop_last() =~= entry_texts(init));
        assert(entry_texts(entries).last() == entry_text(last.0, last.1));
    }
}

/// Storing a mapping and reading it back gives the mapping: for keys that
/// are free of `=` and NUL and not empty once they are trimmed, and for
/// values that are free of NUL, in any order and behind any header of four
/// bytes, the stored form read without a filter holds each key with its
/// value.
pub proof fn lemma_environment_round_trip(header: Seq<u8>, entries: Seq<(Seq<char>, Seq<char>)>)
    requires
        header.len() == HEADER_LEN,
        forall|i: int|
            0 <= i < entries.len() ==> plain_key(#[trigger] entries[i].0) && plain_value(
                entries[i].1,
            ),
    ensures
        parse_bytes(header + vstd::utf8::encode_utf8(environment_text(entries)), None) == mapping(
            entries,
        ),
{
    let text = environment_text(entries);
    let stored = vstd::utf8::encode_utf8(text);
    assert(body(header + stored) == stored);
    vstd::utf8::encode_utf8_valid_utf8(text);
    vstd::utf8::encode_utf8_decode_utf8(text);
    assert(decoded(stored) == text);
    lemma_environment_pieces(entries);
    lemma_parse_entry_texts(entries);
    let pieces = entry_texts(entries).push(Seq::<char>::empty());
    assert(pieces.drop_last() == entry_texts(entries));
    assert(entry_key(Seq::<char>::empty()) =~= Seq::<char>::empty());
    assert(trim(Seq::<char>::empty()) == Seq::<char>::empty());
    assert(parse_entry(pieces.last(), None) == None::<(Seq<char>, Seq<char>)>);
}

} // verus!
