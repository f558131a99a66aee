//! Reading one value out of the query string of a URL.

use vstd::prelude::*;
use vstd::string::StrSliceExecFns;

verus! {

/// The first position from `from` on, and before `to`, at which `text` holds
/// `mark`; `to` where there is none.
pub open spec fn find(text: Seq<char>, mark: char, from: int, to: int) -> int
    decreases to - from,
{
    if from >= to {
        to
    } else if text[from] == mark {
        from
    } else {
        find(text, mark, from + 1, to)
    }
}

/// The value of `key` among the pairs of `text` from `from` on. Pairs are
/// parted by `&`. A pair is a key, `=`, and a value that ends at the next `=`
/// or with the pair. The first pair with the key decides; a pair without `=`
/// before it ends the search without a value.
pub open spec fn pair_value(text: Seq<char>, key: Seq<char>, from: int) -> Option<Seq<char>>
    decreases text.len() - from,
{
    if from < 0 || from > text.len() {
        None
    } else {
        let pair_end = find(text, '&', from, text.len() as int);
        let key_end = find(text, '=', from, pair_end);
        if key_end == pair_end {
            None
        } else if text.subrange(from, key_end) == key {
            Some(text.subrange(key_end + 1, find(text, '=', key_end + 1, pair_end)))
        } else if pair_end < text.len() {
            pair_value(text, key, pair_end + 1)
        } else {
            None
        }
    }
}

/// The value of `key` in a query string, which starts with `?`.
pub open spec fn query_value(query: Seq<char>, key: Seq<char>) -> Option<Seq<char>> {
    if query.len() > 0 && query[0] == '?' {
        pair_value(query, key, 1)
    } else {
        None
    }
}

/// Looks for `mark` in `text` between `from` and `to`.
fn find_char(text: &str, mark: char, from: usize, to: usize) -> (at: usize)
    requires
        from <= to <= text@.len(),
    ensures
        at == find(text@, mark, from as int, to as int),
        from <= at <= to,
{
    let mut at = from;
    while at < to
        invariant
            from <= at <= to <= text@.len(),
            find(text@, mark, from as int, to as int) == find(text@, mark, at as int, to as int),
        decreases to - at,
    {
        if text.get_char(at) == mark {
            return at;
        }
        at += 1;
    }
    at
}

/// Whether `text` holds `word` between `from` and `to`.
fn holds_word(text: &str, from: usize, to: usize, word: &str) -> (same: bool)
    requires
        from <= to <= text@.len(),
    ensures
        same == (text@.subrange(from as int, to as int) == word@),
{
    let len = word.unicode_len();
    if to - from != len {
        return false;
    }
    let mut i: usize = 0;
    while i < len
        invariant
            i <= len,
            len == word@.len(),
            to - from == len,
            from <= to <= text@.len(),
            text@.subrange(from as int, from + i) == word@.take(i as int),
        decreases len - i,
    {
        if text.get_char(from + i) != word.get_char(i) {
            assert(text@.subrange(from as int, to as int)[i as int] != word@[i as int]);
            return false;
        }
        i += 1;
        assert(text@.subrange(from as int, from + i) =~= word@.take(i as int)) by {
            assert(text@.subrange(from as int, from + i - 1) == word@.take(i - 1));
            assert forall|j: int| 0 <= j < i implies text@.subrange(from as int, from + i)[j]
                == word@.take(i as int)[j] by {
                if j < i - 1 {
                    assert(text@.subrange(from as int, from + i - 1)[j] == word@.take(i - 1)[j]);
                }
            }
        }
    }
    assert(word@.take(len as int) =~= word@);
    true
}

/// Parses the query string of a URL, as a browser hands it out with its
/// leading `?`, and gets the value of `search_key` out of it.
pub fn parse_url_query_string<'a>(query: &'a str, search_key: &str) -> (value: Option<&'a str>)
    ensures
        match query_value(query@, search_key@) {
            Some(found) => value matches Some(text) && text@ == found,
            None => value is None,
        },
{
    let len = query.unicode_len();
    if len == 0 || query.get_char(0) != '?' {
        return None;
    }
    let mut from: usize = 1;
    loop
        invariant
            1 <= from <= len,
            len == query@.len(),
            query_value(query@, search_key@) == pair_value(query@, search_key@, from as int),
        decreases len - from,
    {
        let pair_end = find_char(query, '&', from, len);
        let key_end = find_char(query, '=', from, pair_end);
        if key_end == pair_end {
            return None;
        }
        if holds_word(query, from, key_end, search_key) {
            let value_end = find_char(query, '=', key_end + 1, pair_end);
            return Some(query.substring_char(key_end + 1, value_end));
        }
        if pair_end >= len {
            return None;
        }
        from = pair_end + 1;
    }
}

} // verus!
