//! The server's configuration, read from `key value` lines.

use vstd::prelude::*;
use vstd::string::*;
use crate::text::{chars_of, find, first_match};

verus! {

/// The pool size used when the configuration names none.
pub const DEFAULT_THREAD_LIMIT: usize = 4;

/// The server's settings.
#[derive(Debug)]
pub struct Config {
    /// The number of workers, at least one.
    pub thread_limit: usize,
    /// The directory files are served from, ending in exactly one `/`.
    pub document_root: String,
}

/// Why a configuration text was refused.
#[derive(Clone, Copy, Debug, PartialEq, Eq, Structural)]
pub enum ConfigError {
    /// A `thread_limit` value is not a positive integer that fits a `usize`.
    BadThreadLimit,
    /// No non-empty `document_root` is given.
    MissingDocumentRoot,
}

/// The value of a decimal digit character.
pub open spec fn digit_value(c: char) -> nat {
    (c as u32 - '0' as u32) as nat
}

/// Whether every character is a decimal digit.
pub open spec fn all_digits(d: Seq<char>) -> bool {
    forall|i: int| 0 <= i < d.len() ==> '0' <= #[trigger] d[i] <= '9'
}

/// The number that a string of decimal digits spells.
pub open spec fn digits_value(d: Seq<char>) -> nat
    decreases d.len(),
{
    if d.len() == 0 {
        0
    } else {
        digits_value(d.drop_last()) * 10 + digit_value(d.last())
    }
}

/// The count a text spells: an optional `+` and at least one decimal digit,
/// with a value that fits a `usize`.
pub open spec fn count_of(v: Seq<char>) -> Option<nat> {
    let d = if v.len() > 0 && v[0] == '+' {
        v.drop_first()
    } else {
        v
    };
    if d.len() > 0 && all_digits(d) && digits_value(d) <= usize::MAX {
        Some(digits_value(d))
    } else {
        None
    }
}

/// Settings gathered so far: the pool size, the document root if one was
/// given, and whether a bad pool size was seen.
pub type Draft = (nat, Option<Seq<char>>, bool);

/// The settings after one more line.
pub open spec fn apply_line(acc: Draft, line: Seq<char>) -> Draft {
    match first_match(line, seq![' ']) {
        Some(k) => if 0 <= k < line.len() {
            let key = line.subrange(0, k);
            let value = line.subrange(k + 1, line.len() as int);
            if key == "thread_limit"@ {
                match count_of(value) {
                    Some(n) => if n > 0 {
                        (n, acc.1, acc.2)
                    } else {
                        (acc.0, acc.1, true)
                    },
                    None => (acc.0, acc.1, true),
                }
            } else if key == "document_root"@ {
                (acc.0, Some(value), acc.2)
            } else {
                acc
            }
        } else {
            acc
        },
        None => acc,
    }
}

/// The settings after every line of `s`, one line per `\n`.
pub open spec fn draft_of(s: Seq<char>, acc: Draft) -> Draft
    decreases s.len(),
{
    match first_match(s, seq!['\n']) {
        Some(i) => if 0 <= i < s.len() {
            draft_of(s.subrange(i + 1, s.len() as int), apply_line(acc, s.subrange(0, i)))
        } else {
            apply_line(acc, s)
        },
        None => apply_line(acc, s),
    }
}

/// A directory with its trailing separators removed.
pub open spec fn trim_slashes(p: Seq<char>) -> Seq<char>
    decreases p.len(),
{
    if p.len() > 0 && p.last() == '/' {
        trim_slashes(p.drop_last())
    } else {
        p
    }
}

/// A directory that ends in exactly one separator.
pub open spec fn normalized(p: Seq<char>) -> Seq<char> {
    trim_slashes(p) + seq!['/']
}

/// The pool size and document root that a configuration text gives.
pub open spec fn config_of(text: Seq<char>) -> Result<(nat, Seq<char>), ConfigError> {
    let d = draft_of(text, (DEFAULT_THREAD_LIMIT as nat, None, false));
    if d.2 {
        Err(ConfigError::BadThreadLimit)
    } else {
        match d.1 {
            Some(r) => if r.len() > 0 {
                Ok((d.0, normalized(r)))
            } else {
                Err(ConfigError::MissingDocumentRoot)
            },
            None => Err(ConfigError::MissingDocumentRoot),
        }
    }
}

/// A prefix of a digit string spells no more than the whole.
pub proof fn lemma_digits_prefix(d: Seq<char>, k: int)
    requires
        0 <= k <= d.len(),
    ensures
        digits_value(d.subrange(0, k)) <= digits_value(d),
    decreases d.len(),
{
    if k < d.len() {
        lemma_digits_prefix(d.drop_last(), k);
        assert(d.drop_last().subrange(0, k) =~= d.subrange(0, k));
        let x = digits_value(d.drop_last());
        assert(x * 10 + digit_value(d.last()) >= x) by (nonlinear_arith);
    } else {
        assert(d.subrange(0, k) =~= d);
    }
}

/// Reads a count: an optional `+` and decimal digits that fit a `usize`.
pub fn parse_count(v: &str) -> (r: Option<usize>)
    ensures
        match r {
            Some(n) => count_of(v@) == Some(n as nat),
            None => count_of(v@) is None,
        },
{
    let cs = chars_of(v);
    let start: usize = if cs.len() > 0 && cs[0] == '+' { 1 } else { 0 };
    let d = Ghost(cs@.subrange(start as int, cs@.len() as int));
    assert(start == 1 ==> d@ =~= v@.drop_first());
    assert(start == 0 ==> d@ =~= v@);
    assert(count_of(v@) == (if d@.len() > 0 && all_digits(d@) && digits_value(d@) <= usize::MAX {
        Some(digits_value(d@))
    } else {
        None::<nat>
    }));
    if start >= cs.len() {
        return None;
    }
    let mut acc: usize = 0;
    assert(d@.subrange(0, 0) =~= Seq::<char>::empty());
    let mut i: usize = start;
    while i < cs.len()
        invariant
            start <= i <= cs.len(),
            d@ == cs@.subrange(start as int, cs@.len() as int),
            count_of(v@) == (if d@.len() > 0 && all_digits(d@) && digits_value(d@) <= usize::MAX {
                Some(digits_value(d@))
            } else {
                None::<nat>
            }),
            acc == digits_value(d@.subrange(0, i - start)),
            all_digits(d@.subrange(0, i - start)),
        decreases cs.len() - i,
    {
        let c = cs[i];
        if c < '0' || c > '9' {
            assert(d@[i - start] == c);
            assert(!all_digits(d@));
            return None;
        }
        let dv = (c as u32 - '0' as u32) as usize;
        let prefix = Ghost(d@.subrange(0, i - start + 1));
        assert(prefix@.drop_last() =~= d@.subrange(0, i - start));
        assert(prefix@.last() == c);
        assert(digits_value(prefix@) == acc * 10 + dv);
        match acc.checked_mul(10) {
            Some(m) => match m.checked_add(dv) {
                Some(next) => {
                    acc = next;
                },
                None => {
                    proof {
                        lemma_digits_prefix(d@, i - start + 1);
                    }
                    assert(digits_value(d@) > usize::MAX);
                    return None;
                },
            },
            None => {
                proof {
                    lemma_digits_prefix(d@, i - start + 1);
                    assert(acc * 10 + dv >= acc * 10) by (nonlinear_arith);
                }
                assert(digits_value(d@) > usize::MAX);
                return None;
            },
        }
        assert(all_digits(prefix@));
        i = i + 1;
    }
    assert(d@.subrange(0, i - start) =~= d@);
    Some(acc)
}

/// Applies one configuration line to the settings gathered so far.
fn read_line(line: &str, limit: &mut usize, root: &mut Option<String>, bad: &mut bool)
    ensures
        ({
            let before = (*old(limit) as nat, match *old(root) { Some(r) => Some(r@), None => None }, *old(bad));
            let after = (*final(limit) as nat, match *final(root) { Some(r) => Some(r@), None => None }, *final(bad));
            after == apply_line(before, line@)
        }),
{
    let cs = chars_of(line);
    let n = cs.len();
    let space = vec![' '];
    assert(space@ =~= seq![' ']);
    let k = match find(&cs, &space) {
        Some(k) => k,
        None => return,
    };
    proof {
        crate::text::lemma_first_match_bound(cs@, space@);
    }
    assert(k < n);
    let key = chars_of(line.substring_char(0, k));
    let value = line.substring_char(k + 1, n);
    if crate::text::same_chars(&key, &chars_of("thread_limit")) {
        match parse_count(value) {
            Some(n) => if n > 0 {
                *limit = n;
            } else {
                *bad = true;
            },
            None => {
                *bad = true;
            },
        }
    } else if crate::text::same_chars(&key, &chars_of("document_root")) {
        *root = Some(value.to_owned());
    }
}

/// Removes the trailing separators of a directory and ends it with exactly one.
pub fn normalize_root(p: &str) -> (r: String)
    ensures
        r@ == normalized(p@),
{
    let mut n = p.unicode_len();
    assert(p@.subrange(0, n as int) =~= p@);
    while n > 0 && p.get_char(n - 1) == '/'
        invariant
            n <= p@.len(),
            trim_slashes(p@) == trim_slashes(p@.subrange(0, n as int)),
        decreases n,
    {
        assert(p@.subrange(0, n as int).drop_last() =~= p@.subrange(0, n - 1));
        n = n - 1;
    }
    let mut r = p.substring_char(0, n).to_owned();
    proof {
        reveal_strlit("/");
    }
    r.append("/");
    r
}

/// Reads a configuration text: `thread_limit <count>` and `document_root <dir>`
/// lines, each key and value parted by the first space; other lines are passed
/// over and a later line overrides an earlier one.
pub fn parse_config(text: &str) -> (r: Result<Config, ConfigError>)
    ensures
        match r {
            Ok(c) => config_of(text@) == Ok::<(nat, Seq<char>), ConfigError>((c.thread_limit as nat, c.document_root@)),
            Err(e) => config_of(text@) == Err::<(nat, Seq<char>), ConfigError>(e),
        },
{
    let mut limit: usize = DEFAULT_THREAD_LIMIT;
    let mut root: Option<String> = None;
    let mut bad = false;
    let mut rest: String = text.to_owned();
    let newline = vec!['\n'];
    assert(newline@ =~= seq!['\n']);
    loop
        invariant
            newline@ == seq!['\n'],
            draft_of(text@, (DEFAULT_THREAD_LIMIT as nat, None, false)) == draft_of(
                rest@,
                (limit as nat, match root { Some(r) => Some(r@), None => None }, bad),
            ),
        ensures
            draft_of(text@, (DEFAULT_THREAD_LIMIT as nat, None, false)) == (
                limit as nat,
                match root { Some(r) => Some(r@), None => None },
                bad,
            ),
        decreases rest@.len(),
    {
        let cs = chars_of(rest.as_str());
        let n = cs.len();
        match find(&cs, &newline) {
            Some(i) => {
                proof {
                    crate::text::lemma_first_match_bound(cs@, newline@);
                }
                assert(i < n);
                read_line(rest.as_str().substring_char(0, i), &mut limit, &mut root, &mut bad);
                rest = rest.as_str().substring_char(i + 1, n).to_owned();
            },
            None => {
                read_line(rest.as_str(), &mut limit, &mut root, &mut bad);
                break;
            },
        }
    }
    if bad {
        return Err(ConfigError::BadThreadLimit);
    }
    match root {
        Some(r) => {
            if r.as_str().unicode_len() == 0 {
                Err(ConfigError::MissingDocumentRoot)
            } else {
                Ok(Config { thread_limit: limit, document_root: normalize_root(r.as_str()) })
            }
        },
        None => Err(ConfigError::MissingDocumentRoot),
    }
}

} // verus!
