//! The `server.properties` file of a Minecraft server.

use std::path::PathBuf;

use vstd::prelude::*;
use vstd::string::*;

use crate::text::{chars_of, lemma_line_end, line_end, lines, lines_from, starts_with, strip_cr};

verus! {

/// Minecraft server configuration options.
///
/// Maps to a Minecraft server's `server.properties` file.
#[derive(Debug)]
pub struct Properties {
    path: PathBuf,
}

/// What can go wrong while reading a value.
#[derive(Debug)]
pub enum GetValueError {
    Io { source: std::io::Error },
    Parse,
}

impl GetValueError {
    /// What went wrong, in words.
    pub fn message(&self) -> (text: &'static str)
        ensures
            text@ == match *self {
                GetValueError::Io { .. } => "I/O error occurred"@,
                GetValueError::Parse => "failed to parse to target type"@,
            },
    {
        match self {
            GetValueError::Io { .. } => "I/O error occurred",
            GetValueError::Parse => "failed to parse to target type",
        }
    }
}

/// The part of `line` after its first `c`, or nothing if `c` does not occur.
pub open spec fn after_first(line: Seq<char>, c: char) -> Seq<char>
    decreases line.len(),
{
    if line.len() == 0 {
        Seq::empty()
    } else if line[0] == c {
        line.drop_first()
    } else {
        after_first(line.drop_first(), c)
    }
}

/// The value of the first of `lines` that starts with `key=`: what follows its first `=`.
pub open spec fn find_property(lines: Seq<Seq<char>>, key: Seq<char>) -> Option<Seq<char>>
    decreases lines.len(),
{
    if lines.len() == 0 {
        None
    } else if starts_with(lines[0], key.push('=')) {
        Some(after_first(lines[0], '='))
    } else {
        find_property(lines.drop_first(), key)
    }
}

/// The value that the properties text `contents` gives `key`.
pub open spec fn property_value_spec(contents: Seq<char>, key: Seq<char>) -> Option<Seq<char>> {
    find_property(lines(contents), key)
}

/// Whether `chars[j..stop]` starts with `key=`.
fn has_key_prefix(chars: &Vec<char>, j: usize, stop: usize, key: &Vec<char>) -> (res: bool)
    requires
        j <= stop <= chars@.len(),
    ensures
        res == starts_with(chars@.subrange(j as int, stop as int), key@.push('=')),
{
    let ghost line = chars@.subrange(j as int, stop as int);
    let ghost prefix = key@.push('=');
    let klen = key.len();
    if stop - j <= klen {
        return false;
    }
    let mut i: usize = 0;
    while i < klen
        invariant
            klen == key@.len(),
            j + klen < stop <= chars@.len(),
            line == chars@.subrange(j as int, stop as int),
            prefix == key@.push('='),
            0 <= i <= klen,
            forall|m: int| 0 <= m < i ==> line[m] == prefix[m],
        decreases klen - i,
    {
        if chars[j + i] != key[i] {
            proof {
                assert(line.subrange(0, prefix.len() as int)[i as int] != prefix[i as int]);
            }
            return false;
        }
        i = i + 1;
    }
    if chars[j + klen] != '=' {
        proof {
            assert(line.subrange(0, prefix.len() as int)[klen as int] != prefix[klen as int]);
        }
        return false;
    }
    proof {
        assert(line.subrange(0, prefix.len() as int) =~= prefix);
    }
    true
}

/// The index of the first `=` in `chars[j..stop]`, which holds one at or before `bound`.
fn first_equals(chars: &Vec<char>, j: usize, stop: usize, bound: usize) -> (k: usize)
    requires
        j <= bound < stop <= chars@.len(),
        chars@[bound as int] == '=',
    ensures
        j <= k <= bound,
        chars@[k as int] == '=',
        after_first(chars@.subrange(j as int, stop as int), '=') == chars@.subrange(
            k as int + 1,
            stop as int,
        ),
{
    let mut k = j;
    while chars[k] != '='
        invariant
            j <= k <= bound < stop <= chars@.len(),
            chars@[bound as int] == '=',
            after_first(chars@.subrange(j as int, stop as int), '=') == after_first(
                chars@.subrange(k as int, stop as int),
                '=',
            ),
        decreases bound - k,
    {
        proof {
            assert(chars@.subrange(k as int, stop as int).drop_first() =~= chars@.subrange(
                k as int + 1,
                stop as int,
            ));
        }
        k = k + 1;
    }
    proof {
        assert(chars@.subrange(k as int, stop as int).drop_first() =~= chars@.subrange(
            k as int + 1,
            stop as int,
        ));
    }
    k
}

/// Where the line that starts at `j` ends.
pub(crate) fn scan_line_end(chars: &Vec<char>, j: usize) -> (e: usize)
    requires
        j < chars@.len(),
    ensures
        e == line_end(chars@, j as int),
{
    let mut e = j;
    while e < chars.len() && chars[e] != '\n'
        invariant
            j <= e <= chars@.len(),
            line_end(chars@, j as int) == line_end(chars@, e as int),
        decreases chars@.len() - e,
    {
        e = e + 1;
    }
    e
}

/// The value that the properties text `contents` gives `key`: the part after the first `=` of
/// the first line that starts with `key=`, or `None` if no line does.
pub fn property_value(contents: &str, key: &str) -> (res: Option<String>)
    ensures
        res is Some <==> property_value_spec(contents@, key@) is Some,
        res matches Some(v) ==> v@ == property_value_spec(contents@, key@)->0,
{
    let chars = chars_of(contents);
    let kchars = chars_of(key);
    let len = chars.len();
    let ghost c = chars@;
    let mut j: usize = 0;
    while j < len
        invariant
            c == chars@,
            c == contents@,
            kchars@ == key@,
            len == c.len(),
            j <= len,
            find_property(lines_from(c, 0), key@) == find_property(lines_from(c, j as int), key@),
        decreases len - j,
    {
        let e = scan_line_end(&chars, j);
        proof {
            lemma_line_end(c, j as int);
        }
        let stop = if e < len && e > j && chars[e - 1] == '\r' {
            e - 1
        } else {
            e
        };
        let ghost line = c.subrange(j as int, stop as int);
        proof {
            if e < len {
                assert(strip_cr(c.subrange(j as int, e as int)) =~= line);
            }
            assert(lines_from(c, j as int)[0] == line);
            if e < len {
                assert(lines_from(c, j as int).drop_first() =~= lines_from(c, e as int + 1));
            } else {
                assert(lines_from(c, j as int).drop_first() =~= Seq::<Seq<char>>::empty());
            }
        }
        if has_key_prefix(&chars, j, stop, &kchars) {
            proof {
                assert(line[kchars@.len() as int] == key@.push('=')[kchars@.len() as int]);
            }
            let k = first_equals(&chars, j, stop, j + kchars.len());
            let value = contents.substring_char(k + 1, stop);
            return Some(String::from_str(value));
        }
        proof {
            assert(find_property(lines_from(c, j as int), key@) == find_property(
                lines_from(c, j as int).drop_first(),
                key@,
            ));
        }
        if e == len {
            return None;
        }
        j = e + 1;
    }
    None
}

impl View for Properties {
    type V = PathBuf;

    /// Where the file lies.
    closed spec fn view(&self) -> PathBuf {
        self.path
    }
}

impl Properties {
    pub fn new(path: PathBuf) -> (properties: Self)
        ensures
            properties@ == path,
    {
        Self { path }
    }

    pub fn path(&self) -> (path: &PathBuf)
        ensures
            *path == self@,
    {
        &self.path
    }
}

} // verus!

verus! {

/// The search for a key among lines.
proof fn lemma_find_property(lines: Seq<Seq<char>>, key: Seq<char>)
    ensures
        match find_property(lines, key) {
            Some(v) => exists|i: int|
                0 <= i < lines.len() && #[trigger] starts_with(lines[i], key.push('=')) && v
                    == after_first(lines[i], '=') && forall|j: int|
                    0 <= j < i ==> !#[trigger] starts_with(lines[j], key.push('=')),
            None => forall|j: int| 0 <= j < lines.len() ==> !#[trigger] starts_with(lines[j], key.push('=')),
        },
    decreases lines.len(),
{
    if lines.len() > 0 && !starts_with(lines[0], key.push('=')) {
        let rest = lines.drop_first();
        lemma_find_property(rest, key);
        match find_property(rest, key) {
            Some(v) => {
                let i = choose|i: int|
                    0 <= i < rest.len() && #[trigger] starts_with(rest[i], key.push('=')) && v
                        == after_first(rest[i], '=') && forall|j: int|
                        0 <= j < i ==> !#[trigger] starts_with(rest[j], key.push('='));
                assert(lines[i + 1] == rest[i]);
                assert(starts_with(lines[i + 1], key.push('=')));
                assert forall|j: int| 0 <= j < i + 1 implies !#[trigger] starts_with(lines[j], key.push('=')) by {
                    if j > 0 {
                        assert(lines[j] == rest[j - 1]);
                    }
                }
            },
            None => {
                assert forall|j: int| 0 <= j < lines.len() implies !#[trigger] starts_with(lines[j], key.push('=')) by {
                    if j > 0 {
                        assert(lines[j] == rest[j - 1]);
                    }
                }
            },
        }
    } else if lines.len() > 0 {
        assert(starts_with(lines[0], key.push('=')));
    }
}

/// Where a line is a key without `=`, then `=`, then a value, what follows its first `=` is
/// the value.
proof fn lemma_after_key(key: Seq<char>, value: Seq<char>)
    requires
        !key.contains('='),
    ensures
        after_first(key.push('=') + value, '=') == value,
    decreases key.len(),
{
    if key.len() > 0 {
        assert(!key.drop_first().contains('=')) by {
            if key.drop_first().contains('=') {
                let i = choose|i: int| 0 <= i < key.drop_first().len() && key.drop_first()[i] == '=';
                assert(key[i + 1] == '=');
            }
        }
        assert(key[0] != '=');
        lemma_after_key(key.drop_first(), value);
        assert((key.push('=') + value).drop_first() =~= key.drop_first().push('=') + value);
    } else {
        assert((key.push('=') + value).drop_first() =~= value);
    }
}

/// Law: the value of a key is read from the first line of the text that starts with the key
/// and `=`: it is what follows that `=`, and no line before starts so. Where no line does, the
/// key has no value.
pub proof fn law_property_value(contents: Seq<char>, key: Seq<char>)
    requires
        !key.contains('='),
    ensures
        match property_value_spec(contents, key) {
            Some(v) => exists|i: int|
                0 <= i < lines(contents).len() && #[trigger] lines(contents)[i] == key.push('=') + v
                    && forall|j: int|
                    0 <= j < i ==> !#[trigger] starts_with(lines(contents)[j], key.push('=')),
            None => forall|j: int|
                0 <= j < lines(contents).len() ==> !#[trigger] starts_with(lines(contents)[j], key.push('=')),
        },
{
    let ls = lines(contents);
    lemma_find_property(ls, key);
    match find_property(ls, key) {
        Some(v) => {
            let i = choose|i: int|
                0 <= i < ls.len() && #[trigger] starts_with(ls[i], key.push('=')) && v == after_first(
                    ls[i],
                    '=',
                ) && forall|j: int| 0 <= j < i ==> !#[trigger] starts_with(ls[j], key.push('='));
            let k = key.push('=');
            let tail = ls[i].skip(k.len() as int);
            assert(ls[i] =~= k + tail);
            lemma_after_key(key, tail);
            assert(ls[i] == key.push('=') + v);
        },
        None => {},
    }
}

} // verus!
