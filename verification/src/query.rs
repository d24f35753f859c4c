//! A reader of query strings: a question mark, then items `key=value`
//! between ampersands.

use vstd::prelude::*;
use vstd::string::*;
use crate::text::{chars_of, ranges_view, ranges_within, split, split_on, split_ranges};

verus! {

/// Why a text could not be read.
#[derive(Debug, Clone, Copy, PartialEq, Eq)]
pub struct SerializeError<'a> {
    pub text: &'a str,
}

impl<'a> SerializeError<'a> {
    /// What the error says of itself.
    pub fn to_string(&self) -> (text: String)
        ensures
            text@ == self.text@,
    {
        String::from_str(self.text)
    }
}

/// What is said of a text that does not start with a question mark.
pub open spec fn missing_mark() -> Seq<char> {
    "开头缺少?"@
}

/// The text starts with a question mark.
pub open spec fn starts_with_mark(src: Seq<char>) -> bool {
    src.len() > 0 && src[0] == '?'
}

/// A value that can be read from a query string.
pub trait Serializable<'a>: Sized {
    /// The texts that can be read at all.
    spec fn readable(src: Seq<char>) -> bool;

    /// `result` is what reading `src` gives.
    spec fn reads(src: Seq<char>, result: Result<Self, SerializeError<'a>>) -> bool;

    /// Reads a value from a query string.
    fn transform(src: &'a str) -> (result: Result<Self, SerializeError<'a>>)
        requires
            Self::readable(src@),
        ensures
            Self::reads(src@, result),
    ;
}

impl<'a> Serializable<'a> for &'a str {
    /// Every text can be read.
    open spec fn readable(src: Seq<char>) -> bool {
        true
    }

    /// A text that starts with a question mark gives what follows the mark;
    /// any other text is an error.
    open spec fn reads(src: Seq<char>, result: Result<Self, SerializeError<'a>>) -> bool {
        match result {
            Ok(rest) => starts_with_mark(src) && rest@ == src.skip(1),
            Err(error) => !starts_with_mark(src) && error.text@ == missing_mark(),
        }
    }

    fn transform(src: &'a str) -> (result: Result<Self, SerializeError<'a>>) {
        let len = src.unicode_len();
        if len > 0 && src.get_char(0) == '?' {
            let rest = src.substring_char(1, len);
            assert(rest@ =~= src@.skip(1));
            Ok(rest)
        } else {
            Err(SerializeError { text: "开头缺少?" })
        }
    }
}

/// The items of a query string: what stands between the ampersands behind
/// the question mark.
pub open spec fn items_of(src: Seq<char>) -> Seq<Seq<char>> {
    split_on(src.skip(1), '&')
}

/// The item holds an equals sign.
pub open spec fn has_value(item: Seq<char>) -> bool {
    split_on(item, '=').len() >= 2
}

/// The key of an item: what stands before its first equals sign.
pub open spec fn key_of(item: Seq<char>) -> Seq<char> {
    split_on(item, '=')[0]
}

/// The value of an item: what stands between its first equals sign and its second.
pub open spec fn value_of(item: Seq<char>) -> Seq<char> {
    split_on(item, '=')[1]
}

/// A query string whose every item holds an equals sign, or a text that is no
/// query string at all.
pub open spec fn well_formed(src: Seq<char>) -> bool {
    starts_with_mark(src) ==> forall|i: int|
        0 <= i < items_of(src).len() ==> has_value(#[trigger] items_of(src)[i])
}

/// Whether a text can be read as a query string: whether it is well formed.
pub fn can_be_read(src: &str) -> (ok: bool)
    ensures
        ok == well_formed(src@),
{
    let all = chars_of(src);
    if all.len() == 0 || all[0] != '?' {
        return true;
    }
    let chars = vstd::slice::slice_subrange(all.as_slice(), 1, all.len());
    assert(chars@ =~= src@.skip(1));
    let items = split(chars, '&');
    let ghost every = items_of(src@);
    let mut k: usize = 0;
    while k < items.len()
        invariant
            k <= items.len(),
            chars@ == src@.skip(1),
            every == items_of(src@),
            starts_with_mark(src@),
            ranges_view(items@) == split_ranges(chars@, '&'),
            ranges_within(items@, chars@.len()),
            forall|i: int| 0 <= i < k ==> has_value(#[trigger] every[i]),
        decreases items.len() - k,
    {
        let (from, to) = items[k];
        assert(ranges_view(items@)[k as int] == (from as int, to as int));
        assert(items@[k as int].0 <= items@[k as int].1 <= chars@.len());
        let item = vstd::slice::slice_subrange(chars, from, to);
        assert(item@ == every[k as int]);
        let parts = split(item, '=');
        assert(split_on(item@, '=').len() == parts@.len());
        if parts.len() < 2 {
            assert(!has_value(every[k as int]));
            return false;
        }
        k += 1;
    }
    true
}

/// What a query string holds.
#[derive(Debug, PartialEq, Eq)]
pub enum SearchHash<'a> {
    /// Keys with their values, in the order in which they were read. Of two
    /// entries with one key the later one counts.
    Entries(Vec<(&'a str, SearchHash<'a>)>),
    String(&'a str),
    /// The answer for a key that no entry has.
    Absent,
}

/// The value that counts for a key among the entries: that of the last entry
/// with the key.
pub open spec fn lookup<'a>(entries: Seq<(&'a str, SearchHash<'a>)>, key: Seq<char>) -> Option<
    SearchHash<'a>,
>
    decreases entries.len(),
{
    if entries.len() == 0 {
        None
    } else if entries.last().0@ == key {
        Some(entries.last().1)
    } else {
        lookup(entries.drop_last(), key)
    }
}

/// The entry is what an item of a query string says.
pub open spec fn entry_of<'a>(entry: (&'a str, SearchHash<'a>), item: Seq<char>) -> bool {
    &&& entry.0@ == key_of(item)
    &&& entry.1 matches SearchHash::String(value)
    &&& value@ == value_of(item)
}

/// The entries are what the items of a query string say, one by one.
pub open spec fn entries_of<'a>(entries: Seq<(&'a str, SearchHash<'a>)>, items: Seq<Seq<char>>) -> bool {
    &&& entries.len() == items.len()
    &&& forall|i: int| 0 <= i < entries.len() ==> entry_of(#[trigger] entries[i], items[i])
}

/// What reading a query string gives: for a text that starts with a question
/// mark one entry for each item, for any other text an error.
pub open spec fn hash_of<'a>(src: Seq<char>, result: Result<SearchHash<'a>, SerializeError<'a>>) -> bool {
    match result {
        Ok(hash) => {
            &&& starts_with_mark(src)
            &&& hash matches SearchHash::Entries(entries)
            &&& entries_of(entries@, items_of(src))
        },
        Err(error) => !starts_with_mark(src) && error.text@ == missing_mark(),
    }
}

impl<'a> SearchHash<'a> {
    /// Reads a query string.
    pub fn new(src: &'a str) -> (result: Result<SearchHash<'a>, SerializeError<'a>>)
        requires
            well_formed(src@),
        ensures
            hash_of(src@, result),
    {
        let all = chars_of(src);
        if all.len() == 0 || all[0] != '?' {
            return Err(SerializeError { text: "开头缺少?" });
        }
        let chars = vstd::slice::slice_subrange(all.as_slice(), 1, all.len());
        assert(chars@ =~= src@.skip(1));
        let items = split(chars, '&');
        let ghost every = items_of(src@);
        let mut entries: Vec<(&'a str, SearchHash<'a>)> = Vec::new();
        let mut k: usize = 0;
        while k < items.len()
            invariant
                k <= items.len(),
                all@ == src@,
                1 <= all@.len() <= usize::MAX,
                chars@.len() + 1 == all@.len(),
                chars@ == src@.skip(1),
                every == items_of(src@),
                ranges_view(items@) == split_ranges(chars@, '&'),
                ranges_within(items@, chars@.len()),
                forall|i: int| 0 <= i < every.len() ==> has_value(#[trigger] every[i]),
                entries_of(entries@, every.take(k as int)),
            decreases items.len() - k,
        {
            let (from, to) = items[k];
            assert(ranges_view(items@)[k as int] == (from as int, to as int));
            assert(items@[k as int].0 <= items@[k as int].1 <= chars@.len());
            let item = vstd::slice::slice_subrange(chars, from, to);
            assert(item@ == every[k as int]);
            assert(has_value(every[k as int]));
            let parts = split(item, '=');
            assert(split_on(item@, '=').len() == parts@.len());
            let (key_from, key_to) = parts[0];
            let (value_from, value_to) = parts[1];
            assert(parts@[0].0 <= parts@[0].1 <= item@.len());
            assert(parts@[1].0 <= parts@[1].1 <= item@.len());
            assert(ranges_view(parts@)[0] == (key_from as int, key_to as int));
            assert(ranges_view(parts@)[1] == (value_from as int, value_to as int));
            let key = src.substring_char(1 + from + key_from, 1 + from + key_to);
            let value = src.substring_char(1 + from + value_from, 1 + from + value_to);
            assert(key@ =~= key_of(item@));
            assert(value@ =~= value_of(item@));
            entries.push((key, SearchHash::String(value)));
            k += 1;
            assert(every.take(k as int) =~= every.take(k - 1).push(every[k - 1]));
        }
        assert(every.take(k as int) =~= every);
        Ok(SearchHash::Entries(entries))
    }

    /// The value that counts for a key: that of the last entry with the key,
    /// `Absent` where no entry has it. What holds no entries answers with itself.
    pub open spec fn at(&self, key: Seq<char>) -> SearchHash<'a> {
        match *self {
            SearchHash::Entries(entries) => match lookup(entries@, key) {
                Some(value) => value,
                None => SearchHash::Absent,
            },
            _ => *self,
        }
    }

    /// Looks a key up.
    pub fn index(&self, index: &str) -> (value: &SearchHash<'a>)
        ensures
            *value == self.at(index@),
    {
        match self {
            SearchHash::Entries(entries) => {
                let mut k = entries.len();
                assert(entries@.take(k as int) =~= entries@);
                while k > 0
                    invariant
                        k <= entries.len(),
                        self.at(index@) == (match lookup(entries@, index@) {
                            Some(value) => value,
                            None => SearchHash::Absent,
                        }),
                        lookup(entries@, index@) == lookup(entries@.take(k as int), index@),
                    decreases k,
                {
                    assert(entries@.take(k as int).drop_last() =~= entries@.take(k - 1));
                    assert(entries@.take(k as int).last() == entries@[k - 1]);
                    if str_equal(entries[k - 1].0, index) {
                        return &entries[k - 1].1;
                    }
                    k -= 1;
                }
                assert(entries@.take(0).len() == 0);
                &SearchHash::Absent
            },
            _ => self,
        }
    }
}

/// Whether two texts hold the same characters.
pub fn str_equal(a: &str, b: &str) -> (same: bool)
    ensures
        same == (a@ == b@),
{
    let left = chars_of(a);
    let right = chars_of(b);
    if left.len() != right.len() {
        return false;
    }
    let mut i: usize = 0;
    while i < left.len()
        invariant
            i <= left.len(),
            left.len() == right.len(),
            left@ == a@,
            right@ == b@,
            forall|j: int| 0 <= j < i ==> left@[j] == right@[j],
        decreases left.len() - i,
    {
        if left[i] != right[i] {
            return false;
        }
        i += 1;
    }
    assert(left@ =~= right@);
    true
}

impl<'a> Serializable<'a> for SearchHash<'a> {
    /// A query string can be read where each of its items holds an equals sign.
    open spec fn readable(src: Seq<char>) -> bool {
        well_formed(src)
    }

    open spec fn reads(src: Seq<char>, result: Result<Self, SerializeError<'a>>) -> bool {
        hash_of(src, result)
    }

    fn transform(src: &'a str) -> (result: Result<Self, SerializeError<'a>>) {
        SearchHash::new(src)
    }
}

/// A query string that is still to be read.
#[derive(Debug, Clone, Copy, PartialEq, Eq)]
pub struct SearchParams<'a> {
    pub src: &'a str,
}

impl<'a> SearchParams<'a> {
    /// Reads the query string as a value of the type that is asked for.
    pub fn serialize<T>(&self) -> (result: Result<T, SerializeError<'a>>)
        where
            T: Serializable<'a>,
        requires
            T::readable(self.src@),
        ensures
            T::reads(self.src@, result),
    {
        T::transform(self.src)
    }
}

/// A holder of one borrowed text.
#[derive(Debug, Clone, Copy, PartialEq, Eq)]
pub struct Foo<'a> {
    pub bar: &'a str,
}

/// The text that a holder holds.
pub fn baz<'a>(f: &'a Foo) -> (text: &'a str)
    ensures
        text@ == f.bar@,
{
    f.bar
}

/// A key that was never read has no value.
pub proof fn lemma_unknown_key_is_none<'a>(entries: Seq<(&'a str, SearchHash<'a>)>, key: Seq<char>)
    requires
        forall|i: int| 0 <= i < entries.len() ==> (#[trigger] entries[i]).0@ != key,
    ensures
        lookup(entries, key) is None,
    decreases entries.len(),
{
    if entries.len() > 0 {
        lemma_unknown_key_is_none(entries.drop_last(), key);
    }
}

/// Of two entries with one key the later one counts.
pub proof fn lemma_last_entry_counts<'a>(
    entries: Seq<(&'a str, SearchHash<'a>)>,
    key: &'a str,
    value: SearchHash<'a>,
)
    ensures
        lookup(entries.push((key, value)), key@) == Some(value),
{
    assert(entries.push((key, value)).last() == (key, value));
}

} // verus!
