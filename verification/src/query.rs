use vstd::prelude::*;
use vstd::string::StrSliceExecFns;

verus! {

// ---------------------------------------------------------------------------
// The text model: what the query part of a page address says.
// ---------------------------------------------------------------------------

/// `s` without the run of `c` that it starts with.
pub open spec fn trim_leading(s: Seq<char>, c: char) -> Seq<char>
    decreases s.len(),
{
    if s.len() > 0 && s[0] == c {
        trim_leading(s.drop_first(), c)
    } else {
        s
    }
}

/// The position of the first `c` in `s`, or the length of `s` where there is none.
pub open spec fn first_index(s: Seq<char>, c: char) -> nat
    decreases s.len(),
{
    if s.len() == 0 {
        0
    } else if s[0] == c {
        0
    } else {
        1 + first_index(s.drop_first(), c)
    }
}

/// The pieces of `s` between occurrences of `sep`: `n` separators give
/// `n + 1` pieces, empty ones included.
pub open spec fn split_on(s: Seq<char>, sep: char) -> Seq<Seq<char>>
    decreases s.len(),
{
    let k = first_index(s, sep);
    if k >= s.len() {
        seq![s]
    } else {
        seq![s.take(k as int)] + split_on(s.skip(k + 1int), sep)
    }
}

/// The `&`-separated pieces of a query, once its leading `?` marks are gone.
pub open spec fn query_pieces(s: Seq<char>) -> Seq<Seq<char>> {
    split_on(trim_leading(s, '?'), '&')
}

/// The key and the value of one piece: the text before its first `=` and the
/// text between its first and its second `=`; none where the piece holds no `=`.
pub open spec fn query_pair(piece: Seq<char>) -> Option<(Seq<char>, Seq<char>)> {
    let parts = split_on(piece, '=');
    if parts.len() >= 2 {
        Some((parts[0], parts[1]))
    } else {
        None
    }
}

/// The key/value pairs of a query in the order in which they stand, or none
/// where some piece has no value.
pub open spec fn query_pairs(s: Seq<char>) -> Option<Seq<(Seq<char>, Seq<char>)>> {
    let pieces = query_pieces(s);
    if forall|j: int| 0 <= j < pieces.len() ==> #[trigger] query_pair(pieces[j]) is Some {
        Some(pieces.map_values(|p: Seq<char>| query_pair(p).unwrap()))
    } else {
        None
    }
}

/// The map that inserting `pairs` one after another gives: a later pair
/// replaces an earlier one with the same key.
pub open spec fn pairs_to_map(pairs: Seq<(Seq<char>, Seq<char>)>) -> Map<Seq<char>, Seq<char>>
    decreases pairs.len(),
{
    if pairs.len() == 0 {
        Map::empty()
    } else {
        pairs_to_map(pairs.drop_last()).insert(pairs.last().0, pairs.last().1)
    }
}

/// The pairs of `v` by the text they hold.
pub open spec fn pairs_view(v: Seq<(String, String)>) -> Seq<(Seq<char>, Seq<char>)> {
    v.map_values(|p: (String, String)| (p.0@, p.1@))
}

// ---------------------------------------------------------------------------
// Lemmas on the text model.
// ---------------------------------------------------------------------------

proof fn lemma_first_index(s: Seq<char>, c: char)
    ensures
        first_index(s, c) <= s.len(),
        forall|i: int| 0 <= i < first_index(s, c) ==> s[i] != c,
        first_index(s, c) < s.len() ==> s[first_index(s, c) as int] == c,
    decreases s.len(),
{
    if s.len() > 0 && s[0] != c {
        lemma_first_index(s.drop_first(), c);
        assert forall|i: int| 0 <= i < first_index(s, c) implies s[i] != c by {
            if i > 0 {
                assert(s[i] == s.drop_first()[i - 1]);
            }
        }
    }
}

proof fn lemma_first_index_unique(s: Seq<char>, c: char, k: int)
    requires
        0 <= k <= s.len(),
        forall|i: int| 0 <= i < k ==> s[i] != c,
        k == s.len() || s[k] == c,
    ensures
        first_index(s, c) == k,
    decreases s.len(),
{
    if s.len() > 0 && s[0] != c {
        assert forall|i: int| 0 <= i < k - 1 implies s.drop_first()[i] != c by {
            assert(s.drop_first()[i] == s[i + 1]);
        }
        lemma_first_index_unique(s.drop_first(), c, k - 1);
    }
}

proof fn lemma_trim_leading_skip(s: Seq<char>, c: char, k: int)
    requires
        0 <= k <= s.len(),
        forall|i: int| 0 <= i < k ==> s[i] == c,
        k == s.len() || s[k] != c,
    ensures
        trim_leading(s, c) == s.skip(k),
    decreases s.len(),
{
    if k == 0 {
        assert(s.skip(0) =~= s);
    } else {
        assert forall|i: int| 0 <= i < k - 1 implies s.drop_first()[i] == c by {
            assert(s.drop_first()[i] == s[i + 1]);
        }
        lemma_trim_leading_skip(s.drop_first(), c, k - 1);
        assert(s.drop_first().skip(k - 1) =~= s.skip(k));
    }
}

/// How `split_on` begins: its first piece runs up to the first separator,
/// and where there is one, the other pieces are those of the rest.
proof fn lemma_split_head(s: Seq<char>, sep: char)
    ensures
        split_on(s, sep).len() >= 1,
        split_on(s, sep)[0] == s.take(first_index(s, sep) as int),
        split_on(s, sep).len() >= 2 <==> first_index(s, sep) < s.len(),
        first_index(s, sep) < s.len() ==> split_on(s, sep).drop_first() == split_on(
            s.skip(first_index(s, sep) + 1int),
            sep,
        ),
    decreases s.len(),
{
    lemma_first_index(s, sep);
    let k = first_index(s, sep);
    if k >= s.len() {
        assert(s.take(k as int) =~= s);
    } else {
        lemma_split_head(s.skip(k + 1int), sep);
        assert(split_on(s, sep).drop_first() =~= split_on(s.skip(k + 1int), sep));
    }
}

/// No piece holds the separator, nor a character `d` that the text does not hold.
proof fn lemma_split_pieces_free(s: Seq<char>, sep: char, d: char)
    ensures
        forall|j: int|
            0 <= j < split_on(s, sep).len() ==> !(#[trigger] split_on(s, sep)[j]).contains(sep)
                && (!s.contains(d) ==> !split_on(s, sep)[j].contains(d)),
    decreases s.len(),
{
    lemma_first_index(s, sep);
    let k = first_index(s, sep);
    if k < s.len() {
        let rest = s.skip(k + 1int);
        assert forall|x: char| rest.contains(x) implies s.contains(x) by {
            let i = choose|i: int| 0 <= i < rest.len() && rest[i] == x;
            assert(s[i + k + 1] == x);
        }
        lemma_split_pieces_free(rest, sep, d);
        assert forall|j: int| 0 <= j < split_on(s, sep).len() implies !(
        #[trigger] split_on(s, sep)[j]).contains(sep) && (!s.contains(d) ==> !split_on(
            s,
            sep,
        )[j].contains(d)) by {
            if j == 0 {
                let head = s.take(k as int);
                assert(split_on(s, sep)[0] == head);
                assert forall|i: int| 0 <= i < head.len() implies head[i] != sep && (!s.contains(d)
                    ==> head[i] != d) by {
                    assert(head[i] == s[i]);
                }
            } else {
                assert(split_on(s, sep)[j] == split_on(rest, sep)[j - 1]);
            }
        }
    } else {
        assert(split_on(s, sep) =~= seq![s]);
        assert forall|i: int| 0 <= i < s.len() implies s[i] != sep by {}
    }
}

/// What is left after trimming does not begin with the trimmed character.
proof fn lemma_trim_leading_first(s: Seq<char>, c: char)
    ensures
        trim_leading(s, c).len() > 0 ==> trim_leading(s, c)[0] != c,
    decreases s.len(),
{
    if s.len() > 0 && s[0] == c {
        lemma_trim_leading_first(s.drop_first(), c);
    }
}

// ---------------------------------------------------------------------------
// Scanning.
// ---------------------------------------------------------------------------

/// The characters of `s`, one by one.
fn chars_of(s: &str) -> (v: Vec<char>)
    ensures
        v@ == s@,
{
    let mut v: Vec<char> = Vec::new();
    for c in it: s.chars()
        invariant
            v@ == it.seq().take(it.index() as int),
            it.seq() == s@,
    {
        v.push(c);
    }
    v
}

/// The position of the first `c` in `chars[from..to]`, counted from `from`,
/// or `to` where there is none.
fn find_from(chars: &Vec<char>, from: usize, to: usize, c: char) -> (k: usize)
    requires
        from <= to <= chars.len(),
    ensures
        from <= k <= to,
        k - from == first_index(chars@.subrange(from as int, to as int), c),
{
    let mut k = from;
    while k < to && chars[k] != c
        invariant
            from <= k <= to <= chars.len(),
            forall|i: int| from <= i < k ==> chars@[i] != c,
        decreases to - k,
    {
        k = k + 1;
    }
    proof {
        let sub = chars@.subrange(from as int, to as int);
        assert forall|i: int| 0 <= i < k - from implies sub[i] != c by {
            assert(sub[i] == chars@[from + i]);
        }
        lemma_first_index_unique(sub, c, k - from);
    }
    k
}

/// Why a query names no demo.
#[derive(Clone, Copy, Debug, PartialEq, Eq, Structural)]
pub enum QueryError {
    /// Some `&`-separated piece has no `=`, so it has no value.
    PairWithoutValue,
    /// No pair has the key `example`.
    NoExample,
}

/// The key/value pairs of a query, in the order in which they stand, or none
/// where some piece has no value.
fn scan_query_pairs(s: &str) -> (r: Option<Vec<(String, String)>>)
    ensures
        r is Some <==> query_pairs(s@) is Some,
        r matches Some(v) ==> query_pairs(s@) == Some(pairs_view(v@)),
{
    let chars = chars_of(s);
    let n = chars.len();
    let mut start: usize = 0;
    while start < n && chars[start] == '?'
        invariant
            n == chars.len(),
            start <= n,
            forall|i: int| 0 <= i < start ==> chars@[i] == '?',
        decreases n - start,
    {
        start = start + 1;
    }
    let ghost trimmed = chars@.skip(start as int);
    proof {
        lemma_trim_leading_skip(chars@, '?', start as int);
        assert(trimmed =~= chars@.subrange(start as int, n as int));
    }
    let ghost pieces = query_pieces(s@);
    let mut out: Vec<(String, String)> = Vec::new();
    let mut done: usize = 0;
    loop
        invariant_except_break
            n == chars.len(),
            chars@ == s@,
            start <= n,
            pieces == query_pieces(s@),
            done <= start,
            split_on(chars@.subrange(start as int, n as int), '&') == pieces.skip(done as int),
            done < pieces.len(),
            out@.len() == done,
            forall|j: int| 0 <= j < done ==> #[trigger] query_pair(pieces[j]) is Some,
            forall|j: int|
                0 <= j < done ==> Some(#[trigger] pairs_view(out@)[j]) == query_pair(pieces[j]),
        ensures
            query_pairs(s@) is Some,
            query_pairs(s@) == Some(pairs_view(out@)),
        decreases n - start,
    {
        let end = find_from(&chars, start, n, '&');
        let ghost rest = chars@.subrange(start as int, n as int);
        let ghost piece = chars@.subrange(start as int, end as int);
        proof {
            lemma_split_head(rest, '&');
            assert(rest.take(end - start) =~= piece);
            assert(pieces[done as int] == pieces.skip(done as int)[0]);
        }
        let eq1 = find_from(&chars, start, end, '=');
        if eq1 == end {
            proof {
                lemma_split_head(piece, '=');
                assert(query_pair(pieces[done as int]) is None);
            }
            return None;
        }
        let eq2 = find_from(&chars, eq1 + 1, end, '=');
        proof {
            lemma_split_head(piece, '=');
            let after = piece.skip(eq1 - start + 1);
            assert(after =~= chars@.subrange(eq1 + 1, end as int));
            lemma_split_head(after, '=');
            assert(split_on(piece, '=')[1] == split_on(after, '=')[0]);
            assert(piece.take(eq1 - start) =~= chars@.subrange(start as int, eq1 as int));
            assert(after.take(eq2 - eq1 - 1) =~= chars@.subrange(eq1 + 1, eq2 as int));
        }
        let key = s.substring_char(start, eq1).to_owned();
        let value = s.substring_char(eq1 + 1, eq2).to_owned();
        let ghost old_out = out@;
        out.push((key, value));
        proof {
            assert(pieces[done as int] == piece);
            assert(query_pair(piece) == Some((
                chars@.subrange(start as int, eq1 as int),
                chars@.subrange(eq1 + 1, eq2 as int),
            )));
            assert(pairs_view(out@)[done as int] == (
            chars@.subrange(start as int, eq1 as int),
            chars@.subrange(eq1 + 1, eq2 as int),
            ));
            assert forall|j: int| 0 <= j < done + 1 implies Some(
            #[trigger] pairs_view(out@)[j]) == query_pair(pieces[j]) by {
                if j < done {
                    assert(pairs_view(out@)[j] == pairs_view(old_out)[j]);
                }
            }
        }
        if end == n {
            proof {
                assert(pieces.skip(done as int).len() == 1);
                assert(pieces.len() == done + 1);
                let pairs = pieces.map_values(|p: Seq<char>| query_pair(p).unwrap());
                assert(pairs =~= pairs_view(out@));
            }
            break;
        }
        proof {
            assert(rest.skip(end - start + 1) =~= chars@.subrange(end + 1, n as int));
            assert(pieces.skip(done + 1) =~= pieces.skip(done as int).drop_first());
        }
        done = done + 1;
        start = end + 1;
    }
    Some(out)
}

/// Whether every `&`-separated piece of the query has a value, that is,
/// holds an `=`.
pub fn query_has_values(s: &str) -> (b: bool)
    ensures
        b == query_pairs(s@) is Some,
{
    match scan_query_pairs(s) {
        Some(_) => true,
        None => false,
    }
}

/// Splits the query part of a page address into its key/value pairs, in the
/// order in which they stand: leading `?` marks are dropped, pieces are
/// separated by `&`, and in each piece the key runs up to the first `=` and
/// the value from there up to the next `=` or the end of the piece. Every
/// piece must have a value.
pub fn split_query_pairs(s: &str) -> (v: Vec<(String, String)>)
    requires
        query_pairs(s@) is Some,
    ensures
        query_pairs(s@) == Some(pairs_view(v@)),
{
    match scan_query_pairs(s) {
        Some(v) => v,
        None => {
            proof {
                assert(false);
            }
            Vec::new()
        },
    }
}

// ---------------------------------------------------------------------------
// The pairs in the hash map that the demos keep them in.
// ---------------------------------------------------------------------------

/// The key/value pairs of a query, held in the hash map of the game engine's
/// utilities; what it holds is `query_map_contents`.
#[verifier::external_body]
pub struct QueryMap {
    map: bevy::utils::HashMap<String, String>,
}

/// What a `QueryMap` holds, by the text of its keys and values.
pub uninterp spec fn query_map_contents(m: QueryMap) -> Map<Seq<char>, Seq<char>>;

impl QueryMap {
    /// `bevy::utils::HashMap::default`: a map that holds nothing.
    #[verifier::external_body]
    fn new() -> (r: QueryMap)
        ensures
            query_map_contents(r) =~= Map::empty(),
    {
        QueryMap { map: bevy::utils::HashMap::default() }
    }

    /// `bevy::utils::HashMap::insert`: afterwards `key` maps to `value`, and
    /// every other key to what it mapped to before.
    #[verifier::external_body]
    fn insert(&mut self, key: String, value: String)
        ensures
            query_map_contents(*final(self)) == query_map_contents(*old(self)).insert(key@, value@),
    {
        self.map.insert(key, value);
    }

    /// `bevy::utils::HashMap::get`: the value stored under `key`, if any.
    #[verifier::external_body]
    fn get(&self, key: &str) -> (r: Option<&String>)
        ensures
            r is Some <==> query_map_contents(*self).dom().contains(key@),
            r matches Some(v) ==> v@ == query_map_contents(*self)[key@],
    {
        self.map.get(key)
    }
}

/// Collects the pairs of a query into a hash map, a later pair replacing an
/// earlier one with the same key. Every piece must have a value.
pub fn parse_query(s: &str) -> (m: QueryMap)
    requires
        query_pairs(s@) is Some,
    ensures
        query_map_contents(m) == pairs_to_map(query_pairs(s@).unwrap()),
{
    let pairs = split_query_pairs(s);
    let mut map = QueryMap::new();
    let n = pairs.len();
    for i in 0..n
        invariant
            n == pairs.len(),
            query_map_contents(map) == pairs_to_map(pairs_view(pairs@).take(i as int)),
    {
        let key = pairs[i].0.clone();
        let value = pairs[i].1.clone();
        map.insert(key, value);
        proof {
            let pv = pairs_view(pairs@);
            assert(pv.take(i + 1).drop_last() =~= pv.take(i as int));
            assert(pv[i as int] == (pairs@[i as int].0@, pairs@[i as int].1@));
        }
    }
    proof {
        assert(pairs_view(pairs@).take(n as int) =~= pairs_view(pairs@));
    }
    map
}

/// The demo name that a query asks for: the value of its `example` key.
pub open spec fn query_example(s: Seq<char>) -> Result<Seq<char>, QueryError> {
    match query_pairs(s) {
        None => Err(QueryError::PairWithoutValue),
        Some(pairs) => {
            let m = pairs_to_map(pairs);
            if m.dom().contains("example"@) {
                Ok(m["example"@])
            } else {
                Err(QueryError::NoExample)
            }
        },
    }
}

/// Whether the query names a demo: every piece has a value and some pair has
/// the key `example`.
pub fn query_names_example(s: &str) -> (b: bool)
    ensures
        b == query_example(s@) is Ok,
{
    if !query_has_values(s) {
        return false;
    }
    let map = parse_query(s);
    match map.get("example") {
        Some(_) => true,
        None => false,
    }
}

/// Finds the demo name in the query part of a page address: the value of
/// its last `example` pair. The query must name a demo.
pub fn example_from_query(s: &str) -> (v: String)
    requires
        query_example(s@) is Ok,
    ensures
        query_example(s@) == Ok::<Seq<char>, QueryError>(v@),
{
    let map = parse_query(s);
    match map.get("example") {
        Some(v) => v.clone(),
        None => {
            proof {
                assert(false);
            }
            String::new()
        },
    }
}

// ---------------------------------------------------------------------------
// Laws.
// ---------------------------------------------------------------------------

/// A key that several pairs share is mapped to the value of the last of them.
pub proof fn lemma_last_pair_wins(pairs: Seq<(Seq<char>, Seq<char>)>, j: int)
    requires
        0 <= j < pairs.len(),
        forall|i: int| j < i < pairs.len() ==> (#[trigger] pairs[i]).0 != pairs[j].0,
    ensures
        pairs_to_map(pairs).dom().contains(pairs[j].0),
        pairs_to_map(pairs)[pairs[j].0] == pairs[j].1,
    decreases pairs.len(),
{
    if j < pairs.len() - 1 {
        let init = pairs.drop_last();
        assert forall|i: int| j < i < init.len() implies (#[trigger] init[i]).0 != init[j].0 by {
            assert(init[i] == pairs[i]);
        }
        lemma_last_pair_wins(init, j);
        assert(pairs.last() == pairs[pairs.len() - 1]);
    }
}

/// A key that no pair has is not in the map.
pub proof fn lemma_absent_key(pairs: Seq<(Seq<char>, Seq<char>)>, key: Seq<char>)
    requires
        forall|i: int| 0 <= i < pairs.len() ==> (#[trigger] pairs[i]).0 != key,
    ensures
        !pairs_to_map(pairs).dom().contains(key),
    decreases pairs.len(),
{
    if pairs.len() > 0 {
        let init = pairs.drop_last();
        assert forall|i: int| 0 <= i < init.len() implies (#[trigger] init[i]).0 != key by {
            assert(init[i] == pairs[i]);
        }
        lemma_absent_key(init, key);
        assert(pairs.last() == pairs[pairs.len() - 1]);
    }
}

/// The demo name that a query asks for is the value of its last `example`
/// pair; with no such pair the query asks for none.
pub proof fn lemma_example_is_last_example_pair(s: Seq<char>, j: int)
    requires
        query_pairs(s) matches Some(pairs) && 0 <= j < pairs.len() && pairs[j].0 == "example"@
            && forall|i: int| j < i < pairs.len() ==> (#[trigger] pairs[i]).0 != "example"@,
    ensures
        query_example(s) == Ok::<Seq<char>, QueryError>(query_pairs(s).unwrap()[j].1),
{
    let pairs = query_pairs(s).unwrap();
    assert forall|i: int| j < i < pairs.len() implies (#[trigger] pairs[i]).0 != pairs[j].0 by {}
    lemma_last_pair_wins(pairs, j);
}

/// A query with pairs but none with the key `example` asks for no demo.
pub proof fn lemma_no_example_pair(s: Seq<char>)
    requires
        query_pairs(s) matches Some(pairs) && forall|i: int|
            0 <= i < pairs.len() ==> (#[trigger] pairs[i]).0 != "example"@,
    ensures
        query_example(s) == Err::<Seq<char>, QueryError>(QueryError::NoExample),
{
    lemma_absent_key(query_pairs(s).unwrap(), "example"@);
}

/// A text without the separator is one piece.
proof fn lemma_split_without_separator(s: Seq<char>, sep: char)
    requires
        !s.contains(sep),
    ensures
        split_on(s, sep) == seq![s],
{
    assert forall|i: int| 0 <= i < s.len() implies s[i] != sep by {
        if s[i] == sep {
            assert(s.contains(sep));
        }
    }
    lemma_first_index_unique(s, sep, s.len() as int);
}

/// A piece `key=value`, or `key=value=rest`, where neither key nor value holds
/// `=`, has exactly that key and exactly that whole value, whatever their
/// lengths.
pub proof fn lemma_pair_is_key_and_whole_value(key: Seq<char>, value: Seq<char>, rest: Seq<char>)
    requires
        !key.contains('='),
        !value.contains('='),
    ensures
        query_pair(key + seq!['='] + value) == Some((key, value)),
        query_pair(key + seq!['='] + value + seq!['='] + rest) == Some((key, value)),
{
    lemma_key_value_piece(key, value);
    let longer = key + seq!['='] + value + seq!['='] + rest;
    let piece = key + seq!['='] + value;
    assert forall|i: int| 0 <= i < key.len() implies longer[i] != '=' by {
        assert(longer[i] == key[i]);
        if key[i] == '=' {
            assert(key.contains('='));
        }
    }
    lemma_first_index_unique(longer, '=', key.len() as int);
    lemma_split_head(longer, '=');
    assert(longer.take(key.len() as int) =~= key);
    let after = longer.skip(key.len() + 1int);
    assert(after =~= value + seq!['='] + rest);
    assert forall|i: int| 0 <= i < value.len() implies after[i] != '=' by {
        assert(after[i] == value[i]);
        if value[i] == '=' {
            assert(value.contains('='));
        }
    }
    lemma_first_index_unique(after, '=', value.len() as int);
    lemma_split_head(after, '=');
    assert(after.take(value.len() as int) =~= value);
    assert(split_on(longer, '=')[1] == split_on(after, '=')[0]);
}

proof fn lemma_key_value_piece(key: Seq<char>, value: Seq<char>)
    requires
        !key.contains('='),
        !value.contains('='),
    ensures
        query_pair(key + seq!['='] + value) == Some((key, value)),
{
    let piece = key + seq!['='] + value;
    assert forall|i: int| 0 <= i < key.len() implies piece[i] != '=' by {
        assert(piece[i] == key[i]);
        if key[i] == '=' {
            assert(key.contains('='));
        }
    }
    lemma_first_index_unique(piece, '=', key.len() as int);
    lemma_split_head(piece, '=');
    assert(piece.take(key.len() as int) =~= key);
    let after = piece.skip(key.len() + 1int);
    assert(after =~= value);
    lemma_split_without_separator(value, '=');
    assert(split_on(piece, '=')[1] == split_on(after, '=')[0]);
}

/// A piece that holds an `=` always has a value: the text between its first
/// `=` and the next one (or its end), of whatever length.
pub proof fn lemma_piece_with_equals_has_value(piece: Seq<char>)
    requires
        piece.contains('='),
    ensures
        query_pair(piece) is Some,
        query_pair(piece).unwrap().1 == split_on(piece, '=')[1],
        query_pair(piece).unwrap().0 == split_on(piece, '=')[0],
{
    let i = choose|i: int| 0 <= i < piece.len() && piece[i] == '=';
    lemma_first_index(piece, '=');
    lemma_split_head(piece, '=');
}

/// A query in which every piece holds an `=` gives its pairs.
pub proof fn lemma_every_piece_with_equals_gives_pairs(s: Seq<char>)
    requires
        forall|j: int| 0 <= j < query_pieces(s).len() ==> (#[trigger] query_pieces(s)[j]).contains('='),
    ensures
        query_pairs(s) is Some,
{
    let pieces = query_pieces(s);
    assert forall|j: int| 0 <= j < pieces.len() implies #[trigger] query_pair(pieces[j]) is Some by {
        lemma_piece_with_equals_has_value(pieces[j]);
    }
}

/// A query `?example=name`, where the name holds no `&` or `=`, asks for
/// exactly that name, whatever its length.
pub proof fn lemma_single_example_query(name: Seq<char>)
    requires
        !name.contains('&'),
        !name.contains('='),
    ensures
        query_example(seq!['?'] + "example"@ + seq!['='] + name) == Ok::<Seq<char>, QueryError>(name),
{
    reveal_strlit("example");
    let key = "example"@;
    let t = key + seq!['='] + name;
    let s = seq!['?'] + t;
    assert(s =~= seq!['?'] + key + seq!['='] + name);
    assert(s[1] == 'e');
    lemma_trim_leading_skip(s, '?', 1);
    assert(s.skip(1) =~= t);
    assert(!key.contains('&')) by {
        assert forall|i: int| 0 <= i < key.len() implies key[i] != '&' by {}
    }
    assert(!key.contains('=')) by {
        assert forall|i: int| 0 <= i < key.len() implies key[i] != '=' by {}
    }
    assert(!t.contains('&')) by {
        assert forall|i: int| 0 <= i < t.len() implies t[i] != '&' by {
            if i < key.len() {
                assert(t[i] == key[i]);
            } else if i > key.len() {
                assert(t[i] == name[i - key.len() - 1]);
                if name[i - key.len() - 1] == '&' {
                    assert(name.contains('&'));
                }
            }
        }
    }
    lemma_split_without_separator(t, '&');
    assert(query_pieces(s) == seq![t]);
    lemma_key_value_piece(key, name);
    let pairs = query_pairs(s).unwrap();
    assert(pairs =~= seq![(key, name)]);
    assert(pairs.drop_last() =~= Seq::<(Seq<char>, Seq<char>)>::empty());
    assert(pairs_to_map(pairs.drop_last()) == Map::<Seq<char>, Seq<char>>::empty());
    assert(pairs.last() == (key, name));
    assert(pairs_to_map(pairs) == Map::<Seq<char>, Seq<char>>::empty().insert(key, name));
}

/// No key and no value of a query holds `&` or `=`, and the first key does
/// not begin with `?`.
pub proof fn lemma_pairs_hold_no_separators(s: Seq<char>)
    requires
        query_pairs(s) is Some,
    ensures
        forall|j: int|
            0 <= j < query_pairs(s).unwrap().len() ==> {
                let p = #[trigger] query_pairs(s).unwrap()[j];
                &&& !p.0.contains('&') && !p.0.contains('=')
                &&& !p.1.contains('&') && !p.1.contains('=')
            },
        query_pairs(s).unwrap()[0].0.len() > 0 ==> query_pairs(s).unwrap()[0].0[0] != '?',
{
    let t = trim_leading(s, '?');
    let pieces = query_pieces(s);
    let pairs = query_pairs(s).unwrap();
    lemma_split_pieces_free(t, '&', '&');
    assert forall|j: int| 0 <= j < pairs.len() implies {
        let p = #[trigger] pairs[j];
        &&& !p.0.contains('&') && !p.0.contains('=')
        &&& !p.1.contains('&') && !p.1.contains('=')
    } by {
        let piece = pieces[j];
        assert(query_pair(piece) is Some);
        assert(!piece.contains('&'));
        lemma_split_pieces_free(piece, '=', '&');
        lemma_split_head(piece, '=');
        assert(pairs[j] == query_pair(piece).unwrap());
    }
    lemma_trim_leading_first(s, '?');
    lemma_split_head(t, '&');
    lemma_split_head(pieces[0], '=');
    if pairs[0].0.len() > 0 {
        assert(pairs[0].0[0] == pieces[0][0]);
        assert(pieces[0][0] == t[0]);
    }
}

} // verus!
