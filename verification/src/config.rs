//! The persisted key/value configuration source: `KEY=VALUE` lines,
//! split on `=`, both sides trimmed.  A line with any field count other
//! than two is malformed; a key seen twice is a fatal duplicate, never a
//! silent overwrite.  Errors carry the one-based line number.

use crate::errors::PassError;
use crate::text::{str_eq, trim_str, trimmed};
use vstd::prelude::*;

verus! {

/// How many `=` characters the line holds; the line splits into one
/// more field than that.
pub open spec fn count_eq(s: Seq<char>) -> nat
    decreases s.len(),
{
    if s.len() == 0 {
        0
    } else {
        count_eq(s.drop_last()) + (if s.last() == '=' {
            1nat
        } else {
            0nat
        })
    }
}

/// The index of the first `=` in the line (the delimiter).
pub open spec fn eq_pos(s: Seq<char>) -> int
    decreases s.len(),
{
    if s.len() == 0 {
        0
    } else if s[0] == '=' {
        0
    } else {
        1 + eq_pos(s.skip(1))
    }
}

/// The trimmed text before the delimiter.
pub open spec fn key_of(line: Seq<char>) -> Seq<char> {
    trimmed(line.take(eq_pos(line)))
}

/// The trimmed text after the delimiter.
pub open spec fn val_of(line: Seq<char>) -> Seq<char> {
    trimmed(line.skip(eq_pos(line) + 1))
}

/// The value stored under a key, if any.
pub open spec fn lookup_cfg(entries: Seq<(Seq<char>, Seq<char>)>, key: Seq<char>) -> Option<
    Seq<char>,
>
    decreases entries.len(),
{
    if entries.len() == 0 {
        None
    } else if entries.last().0 == key {
        Some(entries.last().1)
    } else {
        lookup_cfg(entries.drop_last(), key)
    }
}

/// What parsing a configuration source yields: the key/value entries in
/// line order, or the first fatal condition met, carrying the one-based
/// number of its line.  Empty lines are skipped; a line whose field
/// count is not two fails as malformed; a key already seen fails as a
/// duplicate.
pub open spec fn parse_cfg(lines: Seq<Seq<char>>) -> Result<
    Seq<(Seq<char>, Seq<char>)>,
    PassError,
>
    decreases lines.len(),
{
    if lines.len() == 0 {
        Ok(Seq::empty())
    } else {
        match parse_cfg(lines.drop_last()) {
            Ok(entries) => {
                let line = lines.last();
                if line.len() == 0 {
                    Ok(entries)
                } else if count_eq(line) != 1 {
                    Err(PassError::MalformedConfigLine(lines.len() as usize))
                } else if lookup_cfg(entries, key_of(line)) is Some {
                    Err(PassError::DuplicateConfigKey(lines.len() as usize))
                } else {
                    Ok(entries.push((key_of(line), val_of(line))))
                }
            },
            Err(e) => Err(e),
        }
    }
}

/// The entries of an executable pair list, as character sequences.
pub open spec fn entries_view(entries: Seq<(String, String)>) -> Seq<(Seq<char>, Seq<char>)> {
    Seq::new(entries.len(), |i: int| (entries[i].0@, entries[i].1@))
}

/// One parsed configuration source: key/value pairs with distinct keys.
#[derive(Debug)]
pub struct ConfigMap {
    entries: Vec<(String, String)>,
}

impl View for ConfigMap {
    type V = Seq<(Seq<char>, Seq<char>)>;

    closed spec fn view(&self) -> Seq<(Seq<char>, Seq<char>)> {
        entries_view(self.entries@)
    }
}

proof fn lemma_eq_pos_at(s: Seq<char>, p: int)
    requires
        0 <= p < s.len(),
        s[p] == '=',
        forall|k: int| 0 <= k < p ==> s[k] != '=',
    ensures
        eq_pos(s) == p,
    decreases p,
{
    if p > 0 {
        lemma_eq_pos_at(s.skip(1), p - 1);
    }
}

proof fn lemma_lookup_some_iff(es: Seq<(Seq<char>, Seq<char>)>, k: Seq<char>)
    ensures
        (lookup_cfg(es, k) is Some) <==> exists|j: int| 0 <= j < es.len() && es[j].0 == k,
    decreases es.len(),
{
    if es.len() > 0 {
        lemma_lookup_some_iff(es.drop_last(), k);
        if es.last().0 == k {
            assert(es[es.len() - 1].0 == k);
        } else {
            if exists|j: int| 0 <= j < es.len() && es[j].0 == k {
                let j = choose|j: int| 0 <= j < es.len() && es[j].0 == k;
                assert(es.drop_last()[j] == es[j]);
            }
            if lookup_cfg(es, k) is Some {
                let j = choose|j: int|
                    0 <= j < es.drop_last().len() && es.drop_last()[j].0 == k;
                assert(es[j].0 == k);
            }
        }
    }
}

proof fn lemma_lookup_at(es: Seq<(Seq<char>, Seq<char>)>, k: Seq<char>, i: int)
    requires
        0 <= i < es.len(),
        es[i].0 == k,
        forall|j: int| i < j < es.len() ==> es[j].0 != k,
    ensures
        lookup_cfg(es, k) == Some(es[i].1),
    decreases es.len(),
{
    if i < es.len() - 1 {
        lemma_lookup_at(es.drop_last(), k, i);
    }
}

proof fn lemma_parse_prefix_err(lines: Seq<Seq<char>>, m: int)
    requires
        0 <= m <= lines.len(),
        parse_cfg(lines.take(m)) is Err,
    ensures
        parse_cfg(lines) == parse_cfg(lines.take(m)),
    decreases lines.len() - m,
{
    if m < lines.len() {
        assert(lines.take(m + 1).drop_last() =~= lines.take(m));
        lemma_parse_prefix_err(lines, m + 1);
    } else {
        assert(lines.take(m) =~= lines);
    }
}

/// Whether some entry already holds this key.
fn contains_key(entries: &Vec<(String, String)>, key: &str) -> (r: bool)
    ensures
        r == (lookup_cfg(entries_view(entries@), key@) is Some),
{
    let ghost es = entries_view(entries@);
    let mut i: usize = 0;
    while i < entries.len()
        invariant
            es == entries_view(entries@),
            i <= entries.len(),
            forall|j: int| 0 <= j < i ==> #[trigger] es[j].0 != key@,
        decreases entries.len() - i,
    {
        if str_eq(entries[i].0.as_str(), key) {
            proof {
                assert(es[i as int].0 == key@);
                lemma_lookup_some_iff(es, key@);
            }
            return true;
        }
        i += 1;
    }
    proof {
        lemma_lookup_some_iff(es, key@);
    }
    false
}

impl ConfigMap {
    /// Keys are unique within one source, case-sensitively.
    pub open spec fn wf(&self) -> bool {
        forall|i: int, j: int| 0 <= i < j < self@.len() ==> self@[i].0 != self@[j].0
    }

    /// The value stored under a key, if any.
    pub fn get(&self, key: &str) -> (r: Option<String>)
        requires
            self.wf(),
        ensures
            r matches Some(v) ==> lookup_cfg(self@, key@) == Some(v@),
            r is None ==> lookup_cfg(self@, key@) is None,
    {
        let mut i: usize = 0;
        while i < self.entries.len()
            invariant
                self.wf(),
                i <= self.entries.len(),
                forall|j: int| 0 <= j < i ==> #[trigger] self@[j].0 != key@,
            decreases self.entries.len() - i,
        {
            if str_eq(self.entries[i].0.as_str(), key) {
                let v = self.entries[i].1.clone();
                proof {
                    lemma_lookup_at(self@, key@, i as int);
                }
                return Some(v);
            }
            i += 1;
        }
        proof {
            lemma_lookup_some_iff(self@, key@);
        }
        None
    }
}

/// Parses the lines of a persisted configuration source.  Returns the
/// entries exactly as `parse_cfg` describes them: the result is `Ok`
/// with all well-formed keys and values, in order and with distinct
/// keys, or the error of the first offending line.
pub fn parse_config(lines: &Vec<String>) -> (r: Result<ConfigMap, PassError>)
    ensures
        r matches Ok(m) ==> (parse_cfg(lines.deep_view()) matches Ok(es) && m@ == es && m.wf()),
        r matches Err(e) ==> parse_cfg(lines.deep_view()) == Err::<
            Seq<(Seq<char>, Seq<char>)>,
            PassError,
        >(e),
{
    let ghost ldv = lines.deep_view();
    let mut entries: Vec<(String, String)> = Vec::new();
    proof {
        assert(ldv.take(0) =~= Seq::<Seq<char>>::empty());
        assert(entries_view(entries@) =~= Seq::<(Seq<char>, Seq<char>)>::empty());
    }
    let mut i: usize = 0;
    while i < lines.len()
        invariant
            ldv == lines.deep_view(),
            i <= lines.len(),
            ldv.len() == lines.len(),
            parse_cfg(ldv.take(i as int)) == Ok::<_, PassError>(entries_view(entries@)),
            forall|a: int, b: int|
                0 <= a < b < entries@.len() ==> entries_view(entries@)[a].0 != entries_view(
                    entries@,
                )[b].0,
        decreases lines.len() - i,
    {
        let ghost done = entries_view(entries@);
        let line = &lines[i];
        let n = line.as_str().unicode_len();
        proof {
            assert(ldv.take(i + 1).drop_last() =~= ldv.take(i as int));
            assert(ldv.take(i + 1).last() == line@);
        }
        if n > 0 {
            let mut cnt: usize = 0;
            let mut pos: usize = 0;
            let mut j: usize = 0;
            while j < n
                invariant
                    n == line@.len(),
                    j <= n,
                    cnt <= j,
                    cnt == count_eq(line@.take(j as int)),
                    cnt > 0 ==> pos < j && line@[pos as int] == '=' && (forall|k: int|
                        0 <= k < pos ==> line@[k] != '='),
                    cnt == 0 ==> forall|k: int| 0 <= k < j ==> line@[k] != '=',
                decreases n - j,
            {
                proof {
                    assert(line@.take(j + 1).drop_last() =~= line@.take(j as int));
                    assert(line@.take(j + 1).last() == line@[j as int]);
                }
                if line.as_str().get_char(j) == '=' {
                    if cnt == 0 {
                        pos = j;
                    }
                    cnt += 1;
                }
                j += 1;
            }
            proof {
                assert(line@.take(n as int) =~= line@);
            }
            if cnt != 1 {
                proof {
                    assert(parse_cfg(ldv.take(i + 1)) == Err::<
                        Seq<(Seq<char>, Seq<char>)>,
                        PassError,
                    >(PassError::MalformedConfigLine((i + 1) as usize)));
                    lemma_parse_prefix_err(ldv, i + 1);
                }
                return Err(PassError::MalformedConfigLine(i + 1));
            }
            proof {
                lemma_eq_pos_at(line@, pos as int);
            }
            let key = trim_str(line.as_str().substring_char(0, pos));
            let val = trim_str(line.as_str().substring_char(pos + 1, n));
            proof {
                assert(line@.subrange(0, pos as int) =~= line@.take(eq_pos(line@)));
                assert(line@.subrange(pos + 1, n as int) =~= line@.skip(eq_pos(line@) + 1));
                assert(key@ == key_of(line@));
                assert(val@ == val_of(line@));
            }
            if contains_key(&entries, key.as_str()) {
                proof {
                    assert(parse_cfg(ldv.take(i + 1)) == Err::<
                        Seq<(Seq<char>, Seq<char>)>,
                        PassError,
                    >(PassError::DuplicateConfigKey((i + 1) as usize)));
                    lemma_parse_prefix_err(ldv, i + 1);
                }
                return Err(PassError::DuplicateConfigKey(i + 1));
            }
            proof {
                lemma_lookup_some_iff(done, key@);
            }
            entries.push((key, val));
            proof {
                assert(entries_view(entries@) =~= done.push((key_of(line@), val_of(line@))));
            }
        } else {
            proof {
                assert(parse_cfg(ldv.take(i + 1)) == Ok::<_, PassError>(done));
            }
        }
        i += 1;
    }
    proof {
        assert(ldv.take(lines.len() as int) =~= ldv);
    }
    Ok(ConfigMap { entries })
}

} // verus!
